//! What can go wrong when output reaches the terminal.
use vstd::prelude::*;

verus! {

#[verifier::external_type_specification]
#[verifier::external_body]
pub struct ExIoError(std::io::Error);

/// A failure to move the cursor, flush or write.
#[derive(Debug)]
pub enum Error {
    CursorMove,
    Flush(std::io::Error),
    WriteError,
}

/// Relies on the `Display` of `std::io::Error`: its message, whatever the
/// system made it.
#[verifier::external_body]
fn io_error_text(e: &std::io::Error) -> (r: String) {
    e.to_string()
}

impl Error {
    /// The message shown for this error.
    pub fn message(&self) -> (r: String)
        ensures
            self is CursorMove ==> r@ == "Cursor move failed"@,
            self is WriteError ==> r@ == "WRite failed!"@,
            self is Flush ==> r@.len() >= 14 && r@.take(14) == "Flush failed: "@,
    {
        match self {
            Error::CursorMove => String::from_str("Cursor move failed"),
            Error::Flush(e) => {
                let mut m = String::from_str("Flush failed: ");
                let t = io_error_text(e);
                m.append(t.as_str());
                proof {
                    reveal_strlit("Flush failed: ");
                    assert(m@.take(14) =~= "Flush failed: "@);
                }
                m
            },
            Error::WriteError => String::from_str("WRite failed!"),
        }
    }
}

} // verus!
