//! Attribute handles and the sysfs path convention.
//!
//! An attribute handle names one text file under a device directory:
//! `/sys/class/<class>/<device>/<attribute>`. Opening, reading and writing
//! that file is the host's business; the handle pins the identity down.

use vstd::prelude::*;
use vstd::string::StringExecFns;

verus! {

/// The full path of an attribute file under the hardcoded root `/sys/class/`.
pub open spec fn attribute_path(
    class: Seq<char>,
    device: Seq<char>,
    attribute: Seq<char>,
) -> Seq<char> {
    "/sys/class/"@ + class + "/"@ + device + "/"@ + attribute
}

/// The identity of an attribute handle: which file it refers to.
pub ghost struct AttributeId {
    pub class: Seq<char>,
    pub device: Seq<char>,
    pub attribute: Seq<char>,
}

/// A handle to one attribute file, identified by its
/// `(class, device, attribute)` triple.
pub struct Attribute {
    class_name: String,
    device_name: String,
    attribute_name: String,
}

impl View for Attribute {
    type V = AttributeId;

    closed spec fn view(&self) -> AttributeId {
        AttributeId {
            class: self.class_name@,
            device: self.device_name@,
            attribute: self.attribute_name@,
        }
    }
}

impl Attribute {
    /// Returns a handle for the attribute file
    /// `/sys/class/{class_name}/{device_name}/{attribute_name}`.
    /// The three strings are stored verbatim; no filesystem I/O occurs.
    pub fn new(class_name: &str, device_name: &str, attribute_name: &str) -> (a: Attribute)
        ensures
            a@ == (AttributeId { class: class_name@, device: device_name@, attribute: attribute_name@ }),
    {
        Attribute {
            class_name: class_name.to_owned(),
            device_name: device_name.to_owned(),
            attribute_name: attribute_name.to_owned(),
        }
    }

    /// The class the attribute's device belongs to.
    pub fn class_name(&self) -> (r: &str)
        ensures
            r@ == self@.class,
    {
        self.class_name.as_str()
    }

    /// The device directory the attribute lives in.
    pub fn device_name(&self) -> (r: &str)
        ensures
            r@ == self@.device,
    {
        self.device_name.as_str()
    }

    /// The attribute file's own name.
    pub fn attribute_name(&self) -> (r: &str)
        ensures
            r@ == self@.attribute,
    {
        self.attribute_name.as_str()
    }

    /// The full path of the attribute file.
    pub fn path(&self) -> (p: String)
        ensures
            p@ == attribute_path(self@.class, self@.device, self@.attribute),
    {
        String::from_str("/sys/class/")
            .concat(self.class_name.as_str())
            .concat("/")
            .concat(self.device_name.as_str())
            .concat("/")
            .concat(self.attribute_name.as_str())
    }
}

impl Clone for Attribute {
    /// A copy of the handle refers to the same attribute file.
    fn clone(&self) -> (res: Self)
        ensures
            res@ == self@,
    {
        Attribute {
            class_name: self.class_name.clone(),
            device_name: self.device_name.clone(),
            attribute_name: self.attribute_name.clone(),
        }
    }
}

} // verus!
