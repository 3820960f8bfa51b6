use vstd::prelude::*;

verus! {

#[verifier::external_type_specification]
#[verifier::external_body]
pub struct ExIoError(std::io::Error);

/// Why a listing failed.
pub enum LstError {
    /// A read or write failed.
    Io(std::io::Error),
    /// The given path is neither a file nor a directory.
    InvalidPath(String),
    /// Highlighting a file's content failed.
    HighlightError(String),
}

/// Relies on the `Display` of `std::io::Error`: its text, which depends
/// on the system's error messages.
#[verifier::external_body]
fn io_error_text(e: &std::io::Error) -> (r: String) {
    e.to_string()
}

impl LstError {
    /// The error for a path that is neither a file nor a directory.
    pub fn invalid_path(path: &str) -> (r: LstError)
        ensures
            r matches LstError::InvalidPath(m) && m@ == "'"@ + path@
                + "' is not a valid file or directory"@,
    {
        let mut m = String::from_str("'");
        m.append(path);
        m.append("' is not a valid file or directory");
        LstError::InvalidPath(m)
    }

    /// The text shown for this error.
    pub fn message(&self) -> (r: String)
        ensures
            match self {
                LstError::Io(_) => r@.len() >= 11 && r@.subrange(0, 11) == "I/O error: "@,
                LstError::InvalidPath(p) => r@ == "Invalid path: "@ + p@,
                LstError::HighlightError(e) => r@ == "Syntax highlighting error: "@ + e@,
            },
    {
        match self {
            LstError::Io(e) => {
                let t = io_error_text(e);
                let mut r = String::from_str("I/O error: ");
                proof {
                    reveal_strlit("I/O error: ");
                }
                r.append(t.as_str());
                assert(r@.subrange(0, 11) =~= "I/O error: "@);
                r
            },
            LstError::InvalidPath(p) => {
                let mut r = String::from_str("Invalid path: ");
                r.append(p.as_str());
                r
            },
            LstError::HighlightError(e) => {
                let mut r = String::from_str("Syntax highlighting error: ");
                r.append(e.as_str());
                r
            },
        }
    }
}

} // verus!
