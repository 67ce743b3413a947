//! The dialects, and how a file's name selects one.

use crate::text::{bytes_eq, lower_bytes, to_lower};
use vstd::prelude::*;
use vstd::utf8::*;

verus! {

/// A dialect that the engines can mutate.
#[derive(Clone, Copy, Debug, PartialEq, Eq, Structural)]
pub enum Language {
    FunC,
    Tact,
    Tolk,
}

/// The dialect that a name or file extension stands for, letter case aside.
pub open spec fn language_named(name: Seq<u8>) -> Option<Language> {
    let lower = lower_bytes(name);
    if lower == encode_utf8("func"@) || lower == encode_utf8("fc"@) {
        Some(Language::FunC)
    } else if lower == encode_utf8("tact"@) {
        Some(Language::Tact)
    } else if lower == encode_utf8("tolk"@) {
        Some(Language::Tolk)
    } else {
        None
    }
}

/// The result is what the extension says of the dialect, and only a path
/// that holds a `.` has an extension.
pub open spec fn is_result_for(
    path: Seq<char>,
    extension: Option<Seq<char>>,
    r: Result<Language, String>,
) -> bool {
    &&& extension is Some ==> path.contains('.')
    &&& same_language(r, language_of_extension(extension))
}

/// Calls `Path::extension` on the path and hands the extension over as
/// a string: what follows the last `.` of the path's file name, if that
/// name has one after its first character. What the file name of a path
/// is depends on the platform's separators, so only this is stated: a
/// path with an extension holds a `.`.
#[verifier::external_body]
fn path_extension(path: &str) -> (r: Option<String>)
    ensures
        r is Some ==> path@.contains('.'),
{
    match std::path::Path::new(path).extension() {
        Some(e) => Some(e.to_string_lossy().to_string()),
        None => None,
    }
}

/// What an extension says of the dialect: no extension is an error, and
/// so is one that names no dialect.
pub open spec fn language_of_extension(extension: Option<Seq<char>>) -> Result<
    Language,
    Seq<char>,
> {
    match extension {
        None => Err("missing file extension"@),
        Some(e) => match language_named(encode_utf8(e)) {
            Some(l) => Ok(l),
            None => Err("Unsupported language: "@ + e),
        },
    }
}

/// The result is what the spec result says, string by string.
pub open spec fn same_language(
    r: Result<Language, String>,
    v: Result<Language, Seq<char>>,
) -> bool {
    match r {
        Ok(l) => v == Ok::<Language, Seq<char>>(l),
        Err(e) => v == Err::<Language, Seq<char>>(e@),
    }
}

impl Language {
    /// The name of the dialect, in small letters.
    pub open spec fn name(self) -> Seq<char> {
        match self {
            Language::FunC => "func"@,
            Language::Tact => "tact"@,
            Language::Tolk => "tolk"@,
        }
    }

    /// Every dialect, in a fixed order.
    pub fn all() -> (r: Vec<Language>)
        ensures
            r@ == seq![Language::FunC, Language::Tact, Language::Tolk],
    {
        let mut v: Vec<Language> = Vec::new();
        v.push(Language::FunC);
        v.push(Language::Tact);
        v.push(Language::Tolk);
        assert(v@ =~= seq![Language::FunC, Language::Tact, Language::Tolk]);
        v
    }

    /// The name of the dialect.
    pub fn to_string(&self) -> (r: String)
        ensures
            r@ == self.name(),
    {
        match self {
            Language::FunC => "func".to_owned(),
            Language::Tact => "tact".to_owned(),
            Language::Tolk => "tolk".to_owned(),
        }
    }

    /// The dialect with the given name or file extension: `func` or `fc`,
    /// `tact`, `tolk`, in any letter case. Another name is an error that
    /// quotes it.
    pub fn from_str(s: &str) -> (r: Result<Language, String>)
        ensures
            match r {
                Ok(l) => language_named(encode_utf8(s@)) == Some(l),
                Err(e) => language_named(encode_utf8(s@)) is None && e@
                    == "Unsupported language: "@ + s@,
            },
    {
        match language_of_bytes(s.as_bytes()) {
            Some(l) => Ok(l),
            None => {
                let msg = "Unsupported language: ".to_owned();
                Err(crate::text::append_str(msg, s))
            },
        }
    }

    /// The dialect for the extension of a file: see
    /// [`language_of_extension`].
    pub fn from_extension(extension: Option<&str>) -> (r: Result<Language, String>)
        ensures
            same_language(
                r,
                language_of_extension(
                    match extension {
                        Some(e) => Some(e@),
                        None => None,
                    },
                ),
            ),
    {
        match extension {
            Some(e) => Language::from_str(e),
            None => Err("missing file extension".to_owned()),
        }
    }

    /// The dialect of a file, by the extension of its path. A path
    /// without an extension is an error, and so is an extension that
    /// names no dialect. A path that holds no `.` has no extension.
    pub fn from_path(path: &str) -> (r: Result<Language, String>)
        ensures
            !path@.contains('.') ==> same_language(r, language_of_extension(None)),
            exists|extension: Option<Seq<char>>| #[trigger]
                is_result_for(path@, extension, r),
    {
        match path_extension(path) {
            Some(e) => {
                let r = Language::from_extension(Some(e.as_str()));
                assert(is_result_for(path@, Some(e@), r));
                r
            },
            None => {
                let r = Language::from_extension(None);
                assert(is_result_for(path@, None, r));
                r
            },
        }
    }
}

/// The dialect that the bytes name.
fn language_of_bytes(name: &[u8]) -> (r: Option<Language>)
    ensures
        r == language_named(name@),
{
    let lower = to_lower(name);
    if bytes_eq(lower.as_slice(), "func".as_bytes()) || bytes_eq(
        lower.as_slice(),
        "fc".as_bytes(),
    ) {
        Some(Language::FunC)
    } else if bytes_eq(lower.as_slice(), "tact".as_bytes()) {
        Some(Language::Tact)
    } else if bytes_eq(lower.as_slice(), "tolk".as_bytes()) {
        Some(Language::Tolk)
    } else {
        None
    }
}

} // verus!
