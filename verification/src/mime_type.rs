//! MIME types as map keys: the essence `type/subtype` of a media type.

use crate::error::{Error, ErrorView};
use crate::text::{chars_of, first_index, lemma_first_index, opt_view, string_of_range};
use vstd::prelude::*;
use vstd::string::StringExecFns;

verus! {

/// The essence of the media type that the text `s` denotes, when it
/// denotes one: the result of `mime::Mime::from_str` followed by
/// `Mime::essence_str`.
pub uninterp spec fn mime_essence(s: Seq<char>) -> Option<Seq<char>>;

/// Parses a media type and hands out its essence.
///
/// Trusted: calls `mime::Mime::from_str` through `str::parse` and, where it
/// accepts the text, `Mime::essence_str`, which is the lower-cased source up
/// to its parameters. The contract names the answer and claims nothing of it.
#[verifier::external_body]
fn parse_essence(s: &str) -> (r: Option<String>)
    ensures
        match r {
            Some(e) => mime_essence(s@) == Some(e@),
            None => mime_essence(s@) is None,
        },
{
    match s.parse::<mime::Mime>() {
        Ok(m) => Some(m.essence_str().to_owned()),
        Err(_) => None,
    }
}

/// A text that can stand for a MIME type: the parser reads it as itself,
/// and it can be written as the key of a line `key=value`.
pub open spec fn is_mime_text(e: Seq<char>) -> bool {
    &&& mime_essence(e) == Some(e)
    &&& !e.contains('=')
    &&& !e.contains('\n')
}

/// The MIME type that the text `s` denotes, if any: its essence, where
/// that is a MIME text.
pub open spec fn mime_text(s: Seq<char>) -> Option<Seq<char>> {
    match mime_essence(s) {
        Some(e) => if is_mime_text(e) {
            Some(e)
        } else {
            None
        },
        None => None,
    }
}

/// The media type that the table of known file extensions gives for an
/// extension, if it knows it: the result of `mime_db::lookup`.
pub uninterp spec fn extension_mime(extension: Seq<char>) -> Option<Seq<char>>;

/// Looks an extension up in the table of known file extensions.
///
/// Trusted: calls `mime_db::lookup`, which searches its table for what
/// follows the last dot of the text. The contract names the answer and
/// claims nothing of it.
#[verifier::external_body]
fn lookup_extension(extension: &str) -> (r: Option<String>)
    ensures
        opt_view(r) == extension_mime(extension@),
{
    match mime_db::lookup(extension) {
        Some(mime) => Some(mime.to_owned()),
        None => None,
    }
}

/// The MIME type of a file extension, if the table knows the extension
/// and what it gives is a MIME type.
pub open spec fn mime_of_extension(extension: Seq<char>) -> Option<Seq<char>> {
    match extension_mime(extension) {
        Some(t) => mime_text(t),
        None => None,
    }
}

/// The MIME type that an argument names: that of the extension where the
/// argument starts with a dot, else the MIME type that it is.
pub open spec fn mime_of_argument(text: Seq<char>) -> Result<Seq<char>, ErrorView> {
    if text.len() > 0 && text[0] == '.' {
        match mime_of_extension(text) {
            Some(m) => Ok(m),
            None => Err(ErrorView::AmbiguousExtension(text)),
        }
    } else {
        match mime_text(text) {
            Some(m) => Ok(m),
            None => Err(ErrorView::BadMimeType(text)),
        }
    }
}

/// The text before the first `/` of `e`, followed by `/*`.
pub open spec fn wildcard_of(e: Seq<char>) -> Seq<char> {
    e.take(first_index(e, '/')).push('/').push('*')
}

/// A MIME type, kept as its essence `type/subtype`.
#[derive(Debug, PartialEq, Eq)]
pub struct MimeType {
    text: String,
}

impl View for MimeType {
    type V = Seq<char>;

    closed spec fn view(&self) -> Seq<char> {
        self.text@
    }
}

impl Clone for MimeType {
    fn clone(&self) -> (r: Self)
        ensures
            r@ == self@,
    {
        MimeType { text: self.text.clone() }
    }
}

impl MimeType {
    /// The text is a MIME text.
    pub open spec fn wf(&self) -> bool {
        is_mime_text(self@)
    }

    /// Reads a MIME type from text. Parameters are dropped and letters are
    /// lower-cased by the parser; a text that it refuses, or whose essence
    /// is no MIME text, is an error.
    pub fn from_str(s: &str) -> (r: Result<MimeType, Error>)
        ensures
            match r {
                Ok(m) => m.wf() && mime_text(s@) == Some(m@),
                Err(e) => mime_text(s@) is None && e@ == ErrorView::BadMimeType(s@),
            },
    {
        match parse_essence(s) {
            Some(e) => {
                let again = parse_essence(e.as_str());
                let chars = chars_of(e.as_str());
                let same = match again {
                    Some(e2) => e2 == e,
                    None => false,
                };
                if same && !has_char(&chars, '=') && !has_char(&chars, '\n') {
                    Ok(MimeType { text: e })
                } else {
                    Err(Error::BadMimeType(String::from_str(s)))
                }
            },
            None => Err(Error::BadMimeType(String::from_str(s))),
        }
    }

    /// The MIME type of a file extension, with or without its dot.
    /// `AmbiguousExtension` where the table of known extensions has none
    /// for it.
    pub fn from_extension(extension: &str) -> (r: Result<MimeType, Error>)
        ensures
            match r {
                Ok(m) => m.wf() && mime_of_extension(extension@) == Some(m@),
                Err(e) => mime_of_extension(extension@) is None && e@
                    == ErrorView::AmbiguousExtension(extension@),
            },
    {
        match lookup_extension(extension) {
            Some(t) => match MimeType::from_str(t.as_str()) {
                Ok(m) => Ok(m),
                Err(_) => Err(Error::AmbiguousExtension(String::from_str(extension))),
            },
            None => Err(Error::AmbiguousExtension(String::from_str(extension))),
        }
    }

    /// The MIME type that an argument names: that of a file extension
    /// where the argument starts with a dot, as `.png` does, else the MIME
    /// type that the argument is.
    pub fn from_argument(text: &str) -> (r: Result<MimeType, Error>)
        ensures
            match r {
                Ok(m) => m.wf() && mime_of_argument(text@) == Ok::<Seq<char>, ErrorView>(m@),
                Err(e) => mime_of_argument(text@) == Err::<Seq<char>, ErrorView>(e@),
            },
    {
        let chars = chars_of(text);
        if chars.len() > 0 && chars[0] == '.' {
            MimeType::from_extension(text)
        } else {
            MimeType::from_str(text)
        }
    }

    /// The essence `type/subtype`.
    pub fn as_str(&self) -> (r: &str)
        ensures
            r@ == self@,
    {
        self.text.as_str()
    }

    /// The essence `type/subtype`, as an owned string.
    pub fn to_string(&self) -> (r: String)
        ensures
            r@ == self@,
    {
        self.text.clone()
    }

    /// The key under which a default for the whole top-level type is
    /// stored: `type/*`.
    pub fn wildcard(&self) -> (r: String)
        ensures
            r@ == wildcard_of(self@),
    {
        let chars = chars_of(self.text.as_str());
        let mut i: usize = 0;
        while i < chars.len() && chars[i] != '/'
            invariant
                i <= chars.len(),
                forall|j: int| 0 <= j < i ==> chars@[j] != '/',
            decreases chars.len() - i,
        {
            i += 1;
        }
        proof {
            lemma_first_index(chars@, '/');
            assert(chars@.subrange(0, i as int) == chars@.take(i as int));
        }
        let mut r = string_of_range(&chars, 0, i);
        r.append("/*");
        proof {
            reveal_strlit("/*");
            assert("/*"@ == seq!['/', '*']);
            assert(r@ == chars@.take(i as int).push('/').push('*'));
        }
        r
    }
}

/// Whether `v` holds the character `c`.
pub fn has_char(v: &Vec<char>, c: char) -> (r: bool)
    ensures
        r == v@.contains(c),
{
    let mut i: usize = 0;
    while i < v.len()
        invariant
            i <= v.len(),
            forall|j: int| 0 <= j < i ==> v@[j] != c,
        decreases v.len() - i,
    {
        if v[i] == c {
            return true;
        }
        i += 1;
    }
    false
}

} // verus!
