//! What the user asks to open: a URL or the path of a file.

use crate::error::{Error, ErrorView};
use crate::mime_type::{mime_of_extension, mime_text, MimeType};
use crate::text::{opt_str_view, opt_view, same_text};
use vstd::prelude::*;
use vstd::string::StringExecFns;

verus! {

/// The parts of a parsed URL that the library reads.
#[derive(Debug, PartialEq, Eq)]
pub struct UrlParts {
    /// The URL as the parser writes it
    pub text: String,
    /// The scheme, without the colon
    pub scheme: String,
    /// The path
    pub path: String,
}

/// The model of `UrlParts`.
pub struct UrlPartsView {
    pub text: Seq<char>,
    pub scheme: Seq<char>,
    pub path: Seq<char>,
}

impl View for UrlParts {
    type V = UrlPartsView;

    open spec fn view(&self) -> UrlPartsView {
        UrlPartsView { text: self.text@, scheme: self.scheme@, path: self.path@ }
    }
}

/// The parts of the absolute URL that the text `s` is, if it is one: the
/// result of `Url::parse`, read through `Url::as_str`, `Url::scheme` and
/// `Url::path`.
pub uninterp spec fn url_parts(s: Seq<char>) -> Option<UrlPartsView>;

/// Parses an absolute URL and hands out its parts.
///
/// Trusted: calls `Url::parse` and, where it accepts the text, reads the
/// serialization, the scheme and the path of the result. The contract
/// names the answer and claims nothing of it.
#[verifier::external_body]
fn parse_url(s: &str) -> (r: Option<UrlParts>)
    ensures
        match r {
            Some(p) => url_parts(s@) == Some(p@),
            None => url_parts(s@) is None,
        },
{
    match url::Url::parse(s) {
        Ok(u) => Some(
            UrlParts {
                text: u.as_str().to_owned(),
                scheme: u.scheme().to_owned(),
                path: u.path().to_owned(),
            },
        ),
        Err(_) => None,
    }
}

/// The path of the file that a `file:` URL names.
///
/// Trusted: calls `Url::parse` and `Url::to_file_path`, which goes by the
/// rules of the system it runs on; the path comes back as text. Nothing is
/// claimed of the answer.
#[verifier::external_body]
fn url_file_path(s: &str) -> (r: Option<String>) {
    match url::Url::parse(s) {
        Ok(u) => match u.to_file_path() {
            Ok(p) => Some(p.to_string_lossy().into_owned()),
            Err(_) => None,
        },
        Err(_) => None,
    }
}

/// A URL or the path of a file.
#[derive(Debug, PartialEq, Eq)]
pub enum UserPath {
    Url { text: String, scheme: String },
    File(String),
}

/// The model of a `UserPath`.
pub enum UserPathView {
    Url { text: Seq<char>, scheme: Seq<char> },
    File(Seq<char>),
}

impl View for UserPath {
    type V = UserPathView;

    open spec fn view(&self) -> UserPathView {
        match self {
            UserPath::Url { text, scheme } => UserPathView::Url { text: text@, scheme: scheme@ },
            UserPath::File(p) => UserPathView::File(p@),
        }
    }
}

impl Clone for UserPath {
    fn clone(&self) -> (r: Self)
        ensures
            r@ == self@,
    {
        match self {
            UserPath::Url { text, scheme } => UserPath::Url {
                text: text.clone(),
                scheme: scheme.clone(),
            },
            UserPath::File(p) => UserPath::File(p.clone()),
        }
    }
}

/// The text by which a path is shown and matched: the URL as written by
/// its parser, or the path of the file.
pub open spec fn path_text(path: UserPathView) -> Seq<char> {
    match path {
        UserPathView::Url { text, scheme } => text,
        UserPathView::File(p) => p,
    }
}

/// What a text stands for, given its parts as a URL and the path of the
/// file that the URL names: the file of a `file:` URL, the URL of any
/// other scheme, and the text as the path of a file where it is no URL.
/// A `file:` URL that names no file is a bad path.
pub open spec fn normalized(
    s: Seq<char>,
    parts: Option<UrlPartsView>,
    file_path: Option<Seq<char>>,
) -> Result<UserPathView, ErrorView> {
    match parts {
        Some(p) => if p.scheme == "file"@ {
            match file_path {
                Some(f) => Ok(UserPathView::File(f)),
                None => Err(ErrorView::BadPath(p.path)),
            }
        } else {
            Ok(UserPathView::Url { text: p.text, scheme: p.scheme })
        },
        None => Ok(UserPathView::File(s)),
    }
}

/// The MIME text of the handlers of a URL scheme.
pub open spec fn scheme_mime(scheme: Seq<char>) -> Seq<char> {
    "x-scheme-handler/"@ + scheme
}

/// The MIME type of a path: that of the scheme for a URL, and for a file
/// the one that it was classified as. A file that could not be
/// classified gives `AmbiguousExtension`.
pub open spec fn path_mime(path: UserPathView, classified: Option<Seq<char>>) -> Result<
    Seq<char>,
    ErrorView,
> {
    match path {
        UserPathView::Url { text, scheme } => match mime_text(scheme_mime(scheme)) {
            Some(m) => Ok(m),
            None => Err(ErrorView::BadMimeType(scheme_mime(scheme))),
        },
        UserPathView::File(p) => match classified {
            Some(m) => Ok(m),
            None => Err(ErrorView::AmbiguousExtension(p)),
        },
    }
}

/// The MIME type that a path is classified as, given whether it is a
/// directory and the extension of its file name: a URL is not classified;
/// a directory is one; any other file goes by its extension.
pub open spec fn classified(path: UserPathView, is_directory: bool, extension: Option<Seq<char>>) -> Option<
    Seq<char>,
> {
    match path {
        UserPathView::Url { text, scheme } => None,
        UserPathView::File(p) => if is_directory {
            mime_text("inode/directory"@)
        } else {
            match extension {
                Some(e) => mime_of_extension(e),
                None => None,
            }
        },
    }
}

/// The result of a function as the contracts see it.
pub open spec fn path_result(r: Result<UserPath, Error>) -> Result<UserPathView, ErrorView> {
    match r {
        Ok(p) => Ok(p@),
        Err(e) => Err(e@),
    }
}

impl UserPath {
    /// What a text stands for, given its parts as a URL, if it is one, and
    /// the path of the file that the URL names, if it names one.
    pub fn normalize(s: &str, parts: Option<UrlParts>, file_path: Option<String>) -> (r: Result<
        UserPath,
        Error,
    >)
        ensures
            path_result(r) == normalized(
                s@,
                match parts {
                    Some(p) => Some(p@),
                    None => None,
                },
                opt_view(file_path),
            ),
    {
        match parts {
            Some(p) => {
                if same_text(&p.scheme, &String::from_str("file")) {
                    match file_path {
                        Some(f) => Ok(UserPath::File(f)),
                        None => Err(Error::BadPath(p.path)),
                    }
                } else {
                    Ok(UserPath::Url { text: p.text, scheme: p.scheme })
                }
            },
            None => Ok(UserPath::File(String::from_str(s))),
        }
    }

    /// Reads a path from text: a URL where the text is one, else the path
    /// of a file. A `file:` URL stands for the file that it names.
    pub fn from_str(s: &str) -> (r: Result<UserPath, Error>)
        ensures
            exists|file_path: Option<Seq<char>>|
                path_result(r) == normalized(s@, url_parts(s@), file_path),
    {
        let parts = parse_url(s);
        let file_path = url_file_path(s);
        let ghost f = opt_view(file_path);
        let r = UserPath::normalize(s, parts, file_path);
        assert(path_result(r) == normalized(s@, url_parts(s@), f));
        r
    }

    /// The text by which the path is shown and matched.
    pub fn to_string(&self) -> (r: String)
        ensures
            r@ == path_text(self@),
    {
        match self {
            UserPath::Url { text, scheme } => text.clone(),
            UserPath::File(p) => p.clone(),
        }
    }

    /// The MIME type that the path is classified as, if any.
    /// `is_directory` tells whether a directory is at the path, and
    /// `extension` is the extension of its file name, if it has one.
    pub fn classify(&self, is_directory: bool, extension: Option<&str>) -> (r: Option<MimeType>)
        ensures
            match r {
                Some(m) => m.wf() && classified(self@, is_directory, opt_str_view(extension))
                    == Some(m@),
                None => classified(self@, is_directory, opt_str_view(extension)) is None,
            },
    {
        match self {
            UserPath::Url { text, scheme } => None,
            UserPath::File(p) => {
                if is_directory {
                    match MimeType::from_str("inode/directory") {
                        Ok(m) => Some(m),
                        Err(_) => None,
                    }
                } else {
                    match extension {
                        Some(e) => match MimeType::from_extension(e) {
                            Ok(m) => Some(m),
                            Err(_) => None,
                        },
                        None => None,
                    }
                }
            },
        }
    }

    /// The MIME type of the path. `classified` is the MIME type that the
    /// file was classified as, by its extension or its content, if it
    /// could be; it is not read for a URL.
    pub fn get_mime(&self, classified: Option<MimeType>) -> (r: Result<MimeType, Error>)
        requires
            classified matches Some(m) ==> m.wf(),
        ensures
            match r {
                Ok(m) => m.wf() && path_mime(
                    self@,
                    match classified {
                        Some(c) => Some(c@),
                        None => None,
                    },
                ) == Ok::<Seq<char>, ErrorView>(m@),
                Err(e) => path_mime(
                    self@,
                    match classified {
                        Some(c) => Some(c@),
                        None => None,
                    },
                ) == Err::<Seq<char>, ErrorView>(e@),
            },
    {
        match self {
            UserPath::Url { text, scheme } => {
                let mut name = String::from_str("x-scheme-handler/");
                name.append(scheme.as_str());
                MimeType::from_str(name.as_str())
            },
            UserPath::File(p) => match classified {
                Some(m) => Ok(m),
                None => Err(Error::AmbiguousExtension(p.clone())),
            },
        }
    }
}

} // verus!
