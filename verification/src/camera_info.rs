use vstd::prelude::*;

verus! {

/// Identifying information of one camera as the camera driver reports
/// it: the driver-level camera id, the serial number, the model and the
/// vendor.
#[derive(Debug)]
pub struct VimbaCameraInfo {
    pub name: String,
    pub serial: String,
    pub model: String,
    pub vendor: String,
}

impl VimbaCameraInfo {
    /// Bundle one camera's identifying strings.
    pub fn new(name: String, serial: String, model: String, vendor: String) -> (r: Self)
        ensures
            r.name == name,
            r.serial == serial,
            r.model == model,
            r.vendor == vendor,
    {
        VimbaCameraInfo { name, serial, model, vendor }
    }

    /// The driver-level camera id.
    pub fn name(&self) -> (r: &str)
        ensures
            r@ == self.name@,
    {
        self.name.as_str()
    }

    /// The camera's serial number.
    pub fn serial(&self) -> (r: &str)
        ensures
            r@ == self.serial@,
    {
        self.serial.as_str()
    }

    /// The camera's model name.
    pub fn model(&self) -> (r: &str)
        ensures
            r@ == self.model@,
    {
        self.model.as_str()
    }

    /// The camera's vendor name.
    pub fn vendor(&self) -> (r: &str)
        ensures
            r@ == self.vendor@,
    {
        self.vendor.as_str()
    }
}

} // verus!
