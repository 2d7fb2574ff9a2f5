use vstd::prelude::*;

use crate::text::{
    chars_of, ends_with, line_bounds, lines, range_ends_with, range_starts_with, starts_with,
    string_of, trim, trim_bounds,
};

verus! {

/// What can go wrong while talking to the device tool.
#[derive(Clone, Debug, PartialEq, Eq)]
pub enum DeviceError {
    /// The tool binary could not be put in place; holds the system's words.
    ToolMissingOrUnwritable(String),
    /// The tool could not be run, or ended abnormally; holds the whole message.
    ToolInvocationFailed(String),
    NoAuthorizedDevice,
    EmptyModel,
    /// The tool answered in a shape that is not understood; holds a description.
    MalformedOutput(String),
}

impl DeviceError {
    pub open spec fn reason_spec(&self) -> Seq<char> {
        match self {
            DeviceError::ToolMissingOrUnwritable(d) => "Failed to prepare ADB: "@ + d@,
            DeviceError::ToolInvocationFailed(m) => m@,
            DeviceError::NoAuthorizedDevice => "No authorized device found."@,
            DeviceError::EmptyModel => "Device model name is empty."@,
            DeviceError::MalformedOutput(m) => "Unexpected output from ADB: "@ + m@,
        }
    }

    /// The message shown to the operator.
    pub fn reason(&self) -> (r: String)
        ensures
            r@ == self.reason_spec(),
    {
        match self {
            DeviceError::ToolMissingOrUnwritable(d) => {
                let mut r = String::from_str("Failed to prepare ADB: ");
                r.append(d.as_str());
                r
            },
            DeviceError::ToolInvocationFailed(m) => m.clone(),
            DeviceError::NoAuthorizedDevice => String::from_str("No authorized device found."),
            DeviceError::EmptyModel => String::from_str("Device model name is empty."),
            DeviceError::MalformedOutput(m) => {
                let mut r = String::from_str("Unexpected output from ADB: ");
                r.append(m.as_str());
                r
            },
        }
    }
}

/// How the device listing marks a connected, authorized device.
pub open spec fn ready_marker() -> Seq<char> {
    "\tdevice"@
}

/// How the package listing starts each line.
pub open spec fn package_prefix() -> Seq<char> {
    "package:"@
}

/// How many of `ls` end with the ready marker.
pub open spec fn ready_count(ls: Seq<Seq<char>>) -> nat
    decreases ls.len(),
{
    if ls.len() == 0 {
        0
    } else {
        ready_count(ls.drop_last()) + if ends_with(ls.last(), ready_marker()) {
            1nat
        } else {
            0nat
        }
    }
}

/// Reads the output of the tool's `devices` listing: exactly one line that
/// ends with the ready marker means one authorized device.
pub fn detect_device(output: &str) -> (r: Result<(), DeviceError>)
    ensures
        r is Ok <==> ready_count(lines(output@)) == 1,
        r is Err ==> r == Err::<(), DeviceError>(DeviceError::NoAuthorizedDevice),
{
    let cs = chars_of(output);
    let bounds = line_bounds(&cs);
    let marker = chars_of("\tdevice");
    let ghost ls = lines(cs@);
    let mut count: usize = 0;
    let mut k: usize = 0;
    while k < bounds.len()
        invariant
            k <= bounds@.len() == ls.len(),
            ls == lines(output@),
            marker@ == ready_marker(),
            count as nat == ready_count(ls.take(k as int)),
            count <= k,
            forall|m: int|
                0 <= m < bounds@.len() ==> {
                    let (from, to) = #[trigger] bounds@[m];
                    &&& from <= to <= cs@.len()
                    &&& cs@.subrange(from as int, to as int) == ls[m]
                },
        decreases bounds@.len() - k,
    {
        let (from, to) = bounds[k];
        assert(bounds@[k as int] == (from, to));
        assert(ls.take(k + 1).drop_last() =~= ls.take(k as int));
        if range_ends_with(&cs, from, to, &marker) {
            count = count + 1;
        }
        k = k + 1;
    }
    assert(ls.take(bounds@.len() as int) =~= ls);
    if count == 1 {
        Ok(())
    } else {
        Err(DeviceError::NoAuthorizedDevice)
    }
}

/// Reads the answer to the model query: `exited_ok` says whether the tool
/// ran and exited successfully, `output` is what it printed.
pub fn get_device_model(exited_ok: bool, output: &str) -> (r: Result<String, DeviceError>)
    ensures
        !exited_ok ==> r is Err && r->Err_0 is ToolInvocationFailed
            && r->Err_0->ToolInvocationFailed_0@ == "Could not retrieve device model."@,
        exited_ok && trim(output@).len() == 0 ==> r == Err::<String, DeviceError>(
            DeviceError::EmptyModel,
        ),
        exited_ok && trim(output@).len() > 0 ==> r is Ok && r->Ok_0@ == trim(output@),
{
    if !exited_ok {
        return Err(DeviceError::ToolInvocationFailed(String::from_str("Could not retrieve device model.")));
    }
    let cs = chars_of(output);
    let (from, to) = trim_bounds(&cs);
    if from == to {
        Err(DeviceError::EmptyModel)
    } else {
        Ok(string_of(&cs, from, to))
    }
}

/// A listed line without its package prefix; a line without it stays whole.
pub open spec fn package_id(line: Seq<char>) -> Seq<char> {
    if starts_with(line, package_prefix()) {
        line.subrange(package_prefix().len() as int, line.len() as int)
    } else {
        line
    }
}

/// Reads the package listing: one identifier per line, in the order listed.
pub fn list_packages(output: &str) -> (r: Vec<String>)
    ensures
        r@.len() == lines(output@).len(),
        forall|k: int| 0 <= k < r@.len() ==> #[trigger] r@[k]@ == package_id(lines(output@)[k]),
{
    let cs = chars_of(output);
    let bounds = line_bounds(&cs);
    let prefix = chars_of("package:");
    let ghost ls = lines(cs@);
    let mut out: Vec<String> = Vec::new();
    let mut k: usize = 0;
    while k < bounds.len()
        invariant
            k <= bounds@.len() == ls.len(),
            ls == lines(output@),
            prefix@ == package_prefix(),
            out@.len() == k,
            forall|m: int| 0 <= m < k ==> #[trigger] out@[m]@ == package_id(ls[m]),
            forall|m: int|
                0 <= m < bounds@.len() ==> {
                    let (from, to) = #[trigger] bounds@[m];
                    &&& from <= to <= cs@.len()
                    &&& cs@.subrange(from as int, to as int) == ls[m]
                },
        decreases bounds@.len() - k,
    {
        let (from, to) = bounds[k];
        assert(bounds@[k as int] == (from, to));
        let ghost line = cs@.subrange(from as int, to as int);
        let id = if range_starts_with(&cs, from, to, &prefix) {
            let s = string_of(&cs, from + prefix.len(), to);
            assert(s@ =~= line.subrange(package_prefix().len() as int, line.len() as int));
            s
        } else {
            string_of(&cs, from, to)
        };
        out.push(id);
        k = k + 1;
    }
    out
}

} // verus!
