//! The `Driver` façade: binds a `(class, device)` pair, memoizes attribute
//! handles, and hosts the device discovery operations.
//!
//! Discovery works on [`DeviceEntry`] values: the name of a candidate device
//! directory together with the text of its `address` and `driver_name`
//! attribute files. Enumerating a class directory and reading those files is
//! filesystem I/O and stays with the host; the matching rules live here.

use vstd::prelude::*;
use vstd::string::StringExecFns;
use crate::attribute::{Attribute, AttributeId};
use crate::error::{Ev3Error, Ev3Result};
use crate::strutil::{contains_sub, is_substring, str_eq};

verus! {

/// One candidate device directory under a class directory, read out as
/// plain text: its directory name, its `address` attribute and its
/// `driver_name` attribute.
pub struct DeviceEntry {
    /// The device directory's name (e.g. `motor0`).
    pub name: String,
    /// The text of the device's `address` attribute.
    pub address: String,
    /// The text of the device's `driver_name` attribute.
    pub driver_name: String,
}

/// The abstract content of a [`DeviceEntry`].
pub ghost struct DeviceEntryId {
    pub name: Seq<char>,
    pub address: Seq<char>,
    pub driver_name: Seq<char>,
}

impl View for DeviceEntry {
    type V = DeviceEntryId;

    open spec fn view(&self) -> DeviceEntryId {
        DeviceEntryId { name: self.name@, address: self.address@, driver_name: self.driver_name@ }
    }
}

impl DeviceEntry {
    /// Builds a candidate from the three strings read out of its directory.
    pub fn new(name: &str, address: &str, driver_name: &str) -> (e: DeviceEntry)
        ensures
            e@ == (DeviceEntryId { name: name@, address: address@, driver_name: driver_name@ }),
    {
        DeviceEntry {
            name: name.to_owned(),
            address: address.to_owned(),
            driver_name: driver_name.to_owned(),
        }
    }
}

/// The views of a sequence of candidates.
pub open spec fn entry_views(s: Seq<DeviceEntry>) -> Seq<DeviceEntryId> {
    s.map_values(|e: DeviceEntry| e@)
}

/// A candidate matches a port when the port's advertised address is a
/// substring of the candidate's `address` attribute (not equality: this
/// accommodates composite addresses such as `ev3-ports:in1`).
pub open spec fn port_matches(e: DeviceEntryId, port_address: Seq<char>) -> bool {
    is_substring(e.address, port_address)
}

/// A candidate matches a driver name by exact string equality.
pub open spec fn driver_matches(e: DeviceEntryId, driver_name: Seq<char>) -> bool {
    e.driver_name == driver_name
}

/// A candidate matches a port and a driver name when both filters hold.
pub open spec fn port_and_driver_matches(
    e: DeviceEntryId,
    port_address: Seq<char>,
    driver_name: Seq<char>,
) -> bool {
    port_matches(e, port_address) && driver_matches(e, driver_name)
}

/// The name of the first candidate satisfying `pred`, in enumeration order,
/// or `None` when none does.
pub open spec fn first_match(
    s: Seq<DeviceEntryId>,
    pred: spec_fn(DeviceEntryId) -> bool,
) -> Option<Seq<char>>
    decreases s.len(),
{
    if s.len() == 0 {
        None
    } else if pred(s[0]) {
        Some(s[0].name)
    } else {
        first_match(s.drop_first(), pred)
    }
}

/// What discovery by port returns: the first candidate whose `address`
/// attribute contains the port's address.
pub open spec fn find_by_port_spec(
    s: Seq<DeviceEntryId>,
    port_address: Seq<char>,
) -> Option<Seq<char>> {
    first_match(s, |e: DeviceEntryId| port_matches(e, port_address))
}

/// What discovery by port and driver returns: the first candidate matching
/// both filters.
pub open spec fn find_by_port_and_driver_spec(
    s: Seq<DeviceEntryId>,
    port_address: Seq<char>,
    driver_name: Seq<char>,
) -> Option<Seq<char>> {
    first_match(s, |e: DeviceEntryId| port_and_driver_matches(e, port_address, driver_name))
}

/// The names of all candidates whose `driver_name` equals `driver_name`,
/// in enumeration order.
pub open spec fn matching_names(s: Seq<DeviceEntryId>, driver_name: Seq<char>) -> Seq<Seq<char>>
    decreases s.len(),
{
    if s.len() == 0 {
        Seq::empty()
    } else {
        matching_names(s.drop_last(), driver_name) + if driver_matches(s.last(), driver_name) {
            seq![s.last().name]
        } else {
            Seq::empty()
        }
    }
}

/// If the first `i` candidates fail `pred` and candidate `i` satisfies it,
/// the first match is candidate `i`.
proof fn lemma_first_match_found(s: Seq<DeviceEntryId>, pred: spec_fn(DeviceEntryId) -> bool, i: int)
    requires
        0 <= i < s.len(),
        pred(s[i]),
        forall|j: int| 0 <= j < i ==> !pred(#[trigger] s[j]),
    ensures
        first_match(s, pred) == Some(s[i].name),
    decreases s.len(),
{
    if i > 0 {
        assert(s.drop_first()[i - 1] == s[i]);
        assert(forall|j: int| 0 <= j < i - 1 ==> !pred(#[trigger] s.drop_first()[j]));
        lemma_first_match_found(s.drop_first(), pred, i - 1);
    }
}

/// If no candidate satisfies `pred`, there is no first match.
proof fn lemma_first_match_none(s: Seq<DeviceEntryId>, pred: spec_fn(DeviceEntryId) -> bool)
    requires
        forall|j: int| 0 <= j < s.len() ==> !pred(#[trigger] s[j]),
    ensures
        first_match(s, pred) is None,
    decreases s.len(),
{
    if s.len() > 0 {
        assert(forall|j: int| 0 <= j < s.len() - 1 ==> !pred(#[trigger] s.drop_first()[j]));
        lemma_first_match_none(s.drop_first(), pred);
    }
}

/// Address substring match: discovery by port finds a device exactly when
/// some candidate's `address` attribute has the port's address as a
/// substring.
pub proof fn lemma_port_match_characterization(s: Seq<DeviceEntryId>, port_address: Seq<char>)
    ensures
        (find_by_port_spec(s, port_address) is Some) <==> (exists|i: int|
            0 <= i < s.len() && is_substring(#[trigger] s[i].address, port_address)),
{
    let pred = |e: DeviceEntryId| port_matches(e, port_address);
    if exists|i: int| 0 <= i < s.len() && is_substring(#[trigger] s[i].address, port_address) {
        let i = choose|i: int| 0 <= i < s.len() && is_substring(#[trigger] s[i].address, port_address);
        lemma_first_match_some_when_match_exists(s, pred, i);
    } else {
        assert(forall|j: int| 0 <= j < s.len() ==> !pred(#[trigger] s[j]));
        lemma_first_match_none(s, pred);
    }
}

/// The joint filter matches exactly when, for some candidate, both rules
/// hold at once: the port's address is a substring of its `address`
/// attribute and its `driver_name` equals the sought name.
pub proof fn lemma_port_and_driver_match_characterization(
    s: Seq<DeviceEntryId>,
    port_address: Seq<char>,
    driver_name: Seq<char>,
)
    ensures
        (find_by_port_and_driver_spec(s, port_address, driver_name) is Some) <==> (exists|i: int|
            0 <= i < s.len() && is_substring(#[trigger] s[i].address, port_address)
                && s[i].driver_name == driver_name),
{
    let pred = |e: DeviceEntryId| port_and_driver_matches(e, port_address, driver_name);
    if exists|i: int|
        0 <= i < s.len() && is_substring(#[trigger] s[i].address, port_address)
            && s[i].driver_name == driver_name {
        let i = choose|i: int|
            0 <= i < s.len() && is_substring(#[trigger] s[i].address, port_address)
                && s[i].driver_name == driver_name;
        lemma_first_match_some_when_match_exists(s, pred, i);
    } else {
        assert(forall|j: int| 0 <= j < s.len() ==> !pred(#[trigger] s[j]));
        lemma_first_match_none(s, pred);
    }
}

/// If some candidate satisfies `pred`, there is a first match.
proof fn lemma_first_match_some_when_match_exists(
    s: Seq<DeviceEntryId>,
    pred: spec_fn(DeviceEntryId) -> bool,
    i: int,
)
    requires
        0 <= i < s.len(),
        pred(s[i]),
    ensures
        first_match(s, pred) is Some,
    decreases s.len(),
{
    if !pred(s[0]) {
        assert(s.drop_first()[i - 1] == s[i]);
        lemma_first_match_some_when_match_exists(s.drop_first(), pred, i - 1);
    }
}

/// Driver exactness: discovery by driver name lists a device's name exactly
/// when that candidate's `driver_name` equals the sought name.
pub proof fn lemma_driver_match_characterization(
    s: Seq<DeviceEntryId>,
    driver_name: Seq<char>,
    n: Seq<char>,
)
    ensures
        matching_names(s, driver_name).contains(n) <==> (exists|i: int|
            0 <= i < s.len() && #[trigger] s[i].driver_name == driver_name && s[i].name == n),
    decreases s.len(),
{
    if s.len() > 0 {
        lemma_driver_match_characterization(s.drop_last(), driver_name, n);
        let prefix = matching_names(s.drop_last(), driver_name);
        let whole = matching_names(s, driver_name);
        if whole.contains(n) {
            let k = choose|k: int| 0 <= k < whole.len() && whole[k] == n;
            if k < prefix.len() {
                assert(prefix.contains(n));
                let i = choose|i: int|
                    0 <= i < s.drop_last().len() && #[trigger] s.drop_last()[i].driver_name
                        == driver_name && s.drop_last()[i].name == n;
                assert(s[i].driver_name == driver_name && s[i].name == n);
            } else {
                assert(driver_matches(s.last(), driver_name) && s.last().name == n);
                assert(s[s.len() - 1].driver_name == driver_name && s[s.len() - 1].name == n);
            }
        }
        if exists|i: int|
            0 <= i < s.len() && #[trigger] s[i].driver_name == driver_name && s[i].name == n {
            let i = choose|i: int|
                0 <= i < s.len() && #[trigger] s[i].driver_name == driver_name && s[i].name == n;
            if i < s.len() - 1 {
                assert(s.drop_last()[i].driver_name == driver_name && s.drop_last()[i].name == n);
                assert(prefix.contains(n));
                let k = choose|k: int| 0 <= k < prefix.len() && prefix[k] == n;
                assert(whole[k] == n);
            } else {
                assert(driver_matches(s.last(), driver_name));
                assert(whole[prefix.len() as int] == n);
            }
        }
    }
}

/// Manages the attributes of one device: all handles it creates use the
/// path `/sys/class/{class_name}/{name}`.
pub struct Driver {
    class_name: String,
    name: String,
    attributes: Vec<(String, Attribute)>,
}

/// The abstract state of a [`Driver`]: its identity and its cache of
/// attribute handles, keyed by attribute name.
pub ghost struct DriverView {
    pub class_name: Seq<char>,
    pub name: Seq<char>,
    pub cache: Map<Seq<char>, AttributeId>,
}

/// The cache entries as a map, later entries overriding earlier ones.
pub open spec fn cache_as_map(entries: Seq<(String, Attribute)>) -> Map<Seq<char>, AttributeId>
    decreases entries.len(),
{
    if entries.len() == 0 {
        Map::empty()
    } else {
        cache_as_map(entries.drop_last()).insert(entries.last().0@, entries.last().1@)
    }
}

/// The cache holds a key exactly when some entry carries it.
proof fn lemma_cache_as_map_keys(entries: Seq<(String, Attribute)>, k: Seq<char>)
    ensures
        cache_as_map(entries).contains_key(k) <==> (exists|i: int|
            0 <= i < entries.len() && #[trigger] entries[i].0@ == k),
    decreases entries.len(),
{
    if entries.len() > 0 {
        lemma_cache_as_map_keys(entries.drop_last(), k);
        if cache_as_map(entries).contains_key(k) && entries.last().0@ != k {
            let i = choose|i: int|
                0 <= i < entries.drop_last().len() && #[trigger] entries.drop_last()[i].0@ == k;
            assert(entries[i].0@ == k);
        }
        if exists|i: int| 0 <= i < entries.len() && #[trigger] entries[i].0@ == k {
            let i = choose|i: int| 0 <= i < entries.len() && #[trigger] entries[i].0@ == k;
            if i < entries.len() - 1 {
                assert(entries.drop_last()[i].0@ == k);
            }
        }
    }
}

/// With unique keys, the cache maps each entry's key to that entry's handle.
proof fn lemma_cache_as_map_value(entries: Seq<(String, Attribute)>, i: int)
    requires
        0 <= i < entries.len(),
        forall|p: int, q: int|
            0 <= p < q < entries.len() ==> (#[trigger] entries[p].0@) != (#[trigger] entries[q].0@),
    ensures
        cache_as_map(entries).contains_key(entries[i].0@),
        cache_as_map(entries)[entries[i].0@] == entries[i].1@,
    decreases entries.len(),
{
    if i < entries.len() - 1 {
        assert(entries[i].0@ != entries[entries.len() - 1].0@);
        assert(entries.drop_last()[i] == entries[i]);
        assert(forall|p: int, q: int|
            0 <= p < q < entries.drop_last().len()
                ==> (#[trigger] entries.drop_last()[p].0@) != (#[trigger] entries.drop_last()[q].0@));
        lemma_cache_as_map_value(entries.drop_last(), i);
    }
}

/// Appending an entry inserts its key into the cache map.
proof fn lemma_cache_as_map_push(entries: Seq<(String, Attribute)>, e: (String, Attribute))
    ensures
        cache_as_map(entries.push(e)) == cache_as_map(entries).insert(e.0@, e.1@),
{
    assert(entries.push(e).drop_last() =~= entries);
    assert(entries.push(e).last() == e);
}

impl View for Driver {
    type V = DriverView;

    closed spec fn view(&self) -> DriverView {
        DriverView {
            class_name: self.class_name@,
            name: self.name@,
            cache: cache_as_map(self.attributes@),
        }
    }
}

/// How one `get_attribute` call relates the driver's state before (`pre`)
/// and after (`post`) to the returned handle `a`: the driver's identity is
/// untouched, the handle names the attribute file
/// `/sys/class/{class}/{device}/{name}`, the cache afterwards holds it under
/// `name`, and a cache hit changes nothing.
pub open spec fn get_attribute_post(
    pre: DriverView,
    name: Seq<char>,
    post: DriverView,
    a: AttributeId,
) -> bool {
    &&& post.class_name == pre.class_name
    &&& post.name == pre.name
    &&& a == (AttributeId { class: pre.class_name, device: pre.name, attribute: name })
    &&& post.cache == pre.cache.insert(name, a)
    &&& pre.cache.contains_key(name) ==> post.cache == pre.cache && a == pre.cache[name]
}

/// How cloning relates the original to the copy: same `(class, device)`
/// identity, empty cache.
pub open spec fn clone_post(pre: DriverView, res: DriverView) -> bool {
    res == (DriverView {
        class_name: pre.class_name,
        name: pre.name,
        cache: Map::<Seq<char>, AttributeId>::empty(),
    })
}

impl Driver {
    /// Cache keys are unique and every cached handle refers to the file
    /// `/sys/class/{class_name}/{name}/{key}`: an entry, once present,
    /// refers to the same attribute file forever.
    pub closed spec fn wf(&self) -> bool {
        &&& forall|p: int, q: int|
            0 <= p < q < self.attributes@.len()
                ==> (#[trigger] self.attributes@[p].0@) != (#[trigger] self.attributes@[q].0@)
        &&& forall|i: int|
            0 <= i < self.attributes@.len()
                ==> (#[trigger] self.attributes@[i].1@) == (AttributeId {
                class: self.class_name@,
                device: self.name@,
                attribute: self.attributes@[i].0@,
            })
    }

    /// Returns a new `Driver` bound to `(class_name, name)`, with an empty
    /// cache. Stores both strings verbatim; no filesystem I/O occurs.
    pub fn new(class_name: &str, name: &str) -> (d: Driver)
        ensures
            d.wf(),
            d@ == (DriverView {
                class_name: class_name@,
                name: name@,
                cache: Map::<Seq<char>, AttributeId>::empty(),
            }),
    {
        Driver {
            class_name: class_name.to_owned(),
            name: name.to_owned(),
            attributes: Vec::new(),
        }
    }

    /// Returns the handle for `attribute_name`, creating and caching it on
    /// first use: a cache hit returns a copy of the cached handle and leaves
    /// the cache unchanged; a miss constructs the handle for
    /// `/sys/class/{class_name}/{name}/{attribute_name}` and caches it.
    pub fn get_attribute(&mut self, attribute_name: &str) -> (a: Attribute)
        requires
            old(self).wf(),
        ensures
            final(self).wf(),
            get_attribute_post(old(self)@, attribute_name@, final(self)@, a@),
    {
        let n = self.attributes.len();
        let mut i: usize = 0;
        while i < n
            invariant
                *self == *old(self),
                old(self).wf(),
                n == self.attributes@.len(),
                i <= n,
                forall|j: int| 0 <= j < i ==> (#[trigger] self.attributes@[j].0@) != attribute_name@,
            decreases n - i,
        {
            if str_eq(self.attributes[i].0.as_str(), attribute_name) {
                let a = self.attributes[i].1.clone();
                proof {
                    lemma_cache_as_map_value(self.attributes@, i as int);
                    assert(old(self)@.cache.insert(attribute_name@, a@) =~= old(self)@.cache);
                }
                return a;
            }
            i = i + 1;
        }
        proof {
            lemma_cache_as_map_keys(self.attributes@, attribute_name@);
        }
        let a = Attribute::new(self.class_name.as_str(), self.name.as_str(), attribute_name);
        let cached = a.clone();
        let key = attribute_name.to_owned();
        proof {
            lemma_cache_as_map_push(self.attributes@, (key, cached));
        }
        self.attributes.push((key, cached));
        a
    }

    /// A textual rendering of the driver's identity, in the shape
    /// `Driver { class_name: <class>, name: <device> }`.
    pub fn describe(&self) -> (r: String)
        ensures
            r@ == "Driver { class_name: "@ + self@.class_name + ", name: "@ + self@.name + " }"@,
    {
        String::from_str("Driver { class_name: ")
            .concat(self.class_name.as_str())
            .concat(", name: ")
            .concat(self.name.as_str())
            .concat(" }")
    }

    /// Returns the name of the first candidate whose `address` attribute
    /// contains `port_address` and whose `driver_name` equals `driver_name`,
    /// in enumeration order; `NotFound` when no candidate matches both.
    pub fn find_name_by_port_and_driver(
        port_address: &str,
        driver_name: &str,
        devices: &Vec<DeviceEntry>,
    ) -> (r: Ev3Result<String>)
        ensures
            match r {
                Ok(name) => find_by_port_and_driver_spec(
                    entry_views(devices@),
                    port_address@,
                    driver_name@,
                ) == Some(name@),
                Err(e) => e == Ev3Error::NotFound && find_by_port_and_driver_spec(
                    entry_views(devices@),
                    port_address@,
                    driver_name@,
                ) is None,
            },
    {
        let ghost views = entry_views(devices@);
        let ghost pred = |e: DeviceEntryId| port_and_driver_matches(e, port_address@, driver_name@);
        let mut i: usize = 0;
        while i < devices.len()
            invariant
                views == entry_views(devices@),
                pred == (|e: DeviceEntryId| port_and_driver_matches(e, port_address@, driver_name@)),
                i <= devices@.len(),
                forall|j: int| 0 <= j < i ==> !pred(#[trigger] views[j]),
            decreases devices@.len() - i,
        {
            if contains_sub(devices[i].address.as_str(), port_address)
                && str_eq(devices[i].driver_name.as_str(), driver_name) {
                proof {
                    lemma_first_match_found(views, pred, i as int);
                }
                return Ok(devices[i].name.clone());
            }
            i = i + 1;
        }
        proof {
            lemma_first_match_none(views, pred);
        }
        Err(Ev3Error::NotFound)
    }

    /// Returns the name of the first candidate whose `address` attribute
    /// contains `port_address`, in enumeration order; `NotFound` when no
    /// candidate matches.
    pub fn find_name_by_port(port_address: &str, devices: &Vec<DeviceEntry>) -> (r: Ev3Result<
        String,
    >)
        ensures
            match r {
                Ok(name) => find_by_port_spec(entry_views(devices@), port_address@) == Some(name@),
                Err(e) => e == Ev3Error::NotFound && find_by_port_spec(
                    entry_views(devices@),
                    port_address@,
                ) is None,
            },
    {
        let ghost views = entry_views(devices@);
        let ghost pred = |e: DeviceEntryId| port_matches(e, port_address@);
        let mut i: usize = 0;
        while i < devices.len()
            invariant
                views == entry_views(devices@),
                pred == (|e: DeviceEntryId| port_matches(e, port_address@)),
                i <= devices@.len(),
                forall|j: int| 0 <= j < i ==> !pred(#[trigger] views[j]),
            decreases devices@.len() - i,
        {
            if contains_sub(devices[i].address.as_str(), port_address) {
                proof {
                    lemma_first_match_found(views, pred, i as int);
                }
                return Ok(devices[i].name.clone());
            }
            i = i + 1;
        }
        proof {
            lemma_first_match_none(views, pred);
        }
        Err(Ev3Error::NotFound)
    }

    /// Returns the names of all candidates whose `driver_name` equals
    /// `driver_name`, in enumeration order; empty when none matches.
    pub fn find_names_by_driver(driver_name: &str, devices: &Vec<DeviceEntry>) -> (r: Vec<String>)
        ensures
            r@.map_values(|n: String| n@) == matching_names(entry_views(devices@), driver_name@),
    {
        let ghost views = entry_views(devices@);
        let mut found_names: Vec<String> = Vec::new();
        let mut i: usize = 0;
        proof {
            assert(views.take(0) =~= Seq::<DeviceEntryId>::empty());
            assert(found_names@.map_values(|n: String| n@) =~= Seq::<Seq<char>>::empty());
        }
        while i < devices.len()
            invariant
                views == entry_views(devices@),
                i <= devices@.len(),
                found_names@.map_values(|n: String| n@) == matching_names(
                    views.take(i as int),
                    driver_name@,
                ),
            decreases devices@.len() - i,
        {
            let ghost prev = found_names@.map_values(|n: String| n@);
            if str_eq(devices[i].driver_name.as_str(), driver_name) {
                found_names.push(devices[i].name.clone());
                proof {
                    assert(found_names@.map_values(|n: String| n@) =~= prev + seq![
                        devices@[i as int].name@,
                    ]);
                }
            }
            proof {
                assert(views.take(i + 1).drop_last() =~= views.take(i as int));
                assert(views.take(i + 1).last() == views[i as int]);
            }
            i = i + 1;
        }
        proof {
            assert(views.take(devices@.len() as int) =~= views);
        }
        found_names
    }

    /// Returns the single candidate name whose `driver_name` equals
    /// `driver_name`: `NotFound` when no candidate matches,
    /// `MultipleMatches` when more than one does.
    pub fn find_name_by_driver(driver_name: &str, devices: &Vec<DeviceEntry>) -> (r: Ev3Result<
        String,
    >)
        ensures
            ({
                let names = matching_names(entry_views(devices@), driver_name@);
                match r {
                    Ok(n) => names.len() == 1 && n@ == names[0],
                    Err(e) => (e == Ev3Error::NotFound && names.len() == 0) || (e
                        == Ev3Error::MultipleMatches && names.len() >= 2),
                }
            }),
    {
        let mut names = Driver::find_names_by_driver(driver_name, devices);
        let ghost all = matching_names(entry_views(devices@), driver_name@);
        if names.len() == 0 {
            Err(Ev3Error::NotFound)
        } else if names.len() == 1 {
            match names.pop() {
                Some(n) => {
                    proof {
                        assert(n@ == all[0]);
                    }
                    Ok(n)
                },
                None => Err(Ev3Error::Internal),
            }
        } else {
            Err(Ev3Error::MultipleMatches)
        }
    }
}

impl Clone for Driver {
    /// A cloned driver shares `(class_name, name)` but starts with an empty
    /// cache: handles are per-owner, not shared.
    fn clone(&self) -> (res: Self)
        ensures
            res.wf(),
            clone_post(self@, res@),
    {
        Driver {
            class_name: self.class_name.clone(),
            name: self.name.clone(),
            attributes: Vec::new(),
        }
    }
}

/// Cache stability: two successive `get_attribute` calls for the same name
/// yield handles with the same identity — hence the same attribute file
/// path — and the second call leaves the driver exactly as the first left
/// it.
pub proof fn lemma_cache_stability(
    pre: DriverView,
    mid: DriverView,
    post: DriverView,
    name: Seq<char>,
    a1: AttributeId,
    a2: AttributeId,
)
    requires
        get_attribute_post(pre, name, mid, a1),
        get_attribute_post(mid, name, post, a2),
    ensures
        a2 == a1,
        crate::attribute::attribute_path(a2.class, a2.device, a2.attribute)
            == crate::attribute::attribute_path(a1.class, a1.device, a1.attribute),
        post == mid,
{
}

/// Clone isolation: a cloned driver's cache holds no name at all, so its
/// first `get_attribute` for any name takes the construction path rather
/// than a cache hit — while still yielding a handle with the identity the
/// original driver would give that name.
pub proof fn lemma_clone_isolates_cache(
    orig: DriverView,
    cloned: DriverView,
    name: Seq<char>,
    post: DriverView,
    a: AttributeId,
)
    requires
        clone_post(orig, cloned),
        get_attribute_post(cloned, name, post, a),
    ensures
        !cloned.cache.contains_key(name),
        a == (AttributeId { class: orig.class_name, device: orig.name, attribute: name }),
{
}

} // verus!
