//! Errors of the harness.
use vstd::prelude::*;

verus! {

/// What can go wrong while preparing, running or reporting a test.
#[derive(Debug)]
pub enum AsmTestError {
    /// A file could not be read, written or found.
    Io(String),
    /// A JSON document could not be parsed.
    JsonParse(String),
    /// An ELF image could not be parsed or is inconsistent.
    ElfParse(String),
    /// A fixed-address mapping could not be made or released.
    MemoryMap(String),
    /// Running the test went wrong.
    Execution(String),
    /// The configuration block is not a valid configuration.
    ConfigParse(String),
    /// The assembly file is malformed.
    AsmFormat(String),
    /// A system call or external tool failed.
    SystemCall(String),
    /// Anything else.
    Other(String),
}

/// Builds an error message from a fixed text and a detail.
pub fn describe(what: &str, detail: &[char]) -> (r: String)
    ensures
        r@ == what@ + detail@,
{
    let mut cs = crate::text::chars_of(what);
    crate::text::push_all(&mut cs, detail);
    crate::text::string_of(cs.as_slice())
}

/// Builds an error message naming what failed and why: `what`, the
/// subject, `": "` and the reason.
pub fn describe_failure(what: &str, subject: &[char], reason: &str) -> (r: String)
    ensures
        r@ == what@ + subject@ + ": "@ + reason@,
{
    let mut cs = crate::text::chars_of(what);
    crate::text::push_all(&mut cs, subject);
    crate::text::push_str(&mut cs, ": ");
    crate::text::push_str(&mut cs, reason);
    crate::text::string_of(cs.as_slice())
}

/// Builds an error message from a detail between two fixed texts.
pub fn describe_around(before: &str, detail: &[char], after: &str) -> (r: String)
    ensures
        r@ == before@ + detail@ + after@,
{
    let mut cs = crate::text::chars_of(before);
    crate::text::push_all(&mut cs, detail);
    crate::text::push_str(&mut cs, after);
    crate::text::string_of(cs.as_slice())
}

impl AsmTestError {
    /// The human-readable message of the error: a fixed label followed by
    /// the detail it carries.
    pub fn message(&self) -> (r: String)
        ensures
            r@ == error_label(self)@ + error_detail(self)@,
    {
        let (label, detail): (&str, &String) = match self {
            AsmTestError::Io(d) => ("IO error: ", d),
            AsmTestError::JsonParse(d) => ("JSON parse error: ", d),
            AsmTestError::ElfParse(d) => ("ELF parse error: ", d),
            AsmTestError::MemoryMap(d) => ("Memory mapping error: ", d),
            AsmTestError::Execution(d) => ("Execution error: ", d),
            AsmTestError::ConfigParse(d) => ("Configuration parse error: ", d),
            AsmTestError::AsmFormat(d) => ("Assembly file format error: ", d),
            AsmTestError::SystemCall(d) => ("System call error: ", d),
            AsmTestError::Other(d) => ("Other error: ", d),
        };
        let cs = crate::text::chars_of(detail.as_str());
        describe(label, cs.as_slice())
    }
}

/// The label that [`AsmTestError::message`] puts before the detail.
pub open spec fn error_label(e: &AsmTestError) -> &'static str {
    match e {
        AsmTestError::Io(_) => "IO error: ",
        AsmTestError::JsonParse(_) => "JSON parse error: ",
        AsmTestError::ElfParse(_) => "ELF parse error: ",
        AsmTestError::MemoryMap(_) => "Memory mapping error: ",
        AsmTestError::Execution(_) => "Execution error: ",
        AsmTestError::ConfigParse(_) => "Configuration parse error: ",
        AsmTestError::AsmFormat(_) => "Assembly file format error: ",
        AsmTestError::SystemCall(_) => "System call error: ",
        AsmTestError::Other(_) => "Other error: ",
    }
}

/// The detail an error carries.
pub open spec fn error_detail(e: &AsmTestError) -> String {
    match e {
        AsmTestError::Io(d) => *d,
        AsmTestError::JsonParse(d) => *d,
        AsmTestError::ElfParse(d) => *d,
        AsmTestError::MemoryMap(d) => *d,
        AsmTestError::Execution(d) => *d,
        AsmTestError::ConfigParse(d) => *d,
        AsmTestError::AsmFormat(d) => *d,
        AsmTestError::SystemCall(d) => *d,
        AsmTestError::Other(d) => *d,
    }
}

} // verus!
