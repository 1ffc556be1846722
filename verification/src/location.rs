//! Where a package lies: what its URL says.
use url::Url;
use vstd::prelude::*;

use crate::text::same_text;

verus! {

/// A parsed URL of the `url` crate.
#[verifier::external_type_specification]
#[verifier::external_body]
pub struct ExUrl(url::Url);

/// The characters that a URL holds: its serialization.
pub uninterp spec fn url_text(url: Url) -> Seq<char>;

/// The path component that a URL holds, percent-encoded.
pub uninterp spec fn url_path(url: Url) -> Seq<char>;

/// `Url::scheme` returns what stands before the first colon of the URL.
pub assume_specification[ Url::scheme ](url: &Url) -> (scheme: &str)
    ensures
        !scheme@.contains(':'),
        scheme@.push(':').is_prefix_of(url_text(*url)),
;

/// `Url::path` returns the path component of the URL.  Which part of the
/// serialization that is depends on where the URL keeps its components and is
/// not spelled out.
pub assume_specification[ Url::path ](url: &Url) -> (path: &str)
    ensures
        path@ == url_path(*url),
;

/// A path of the file system.
#[verifier::external_type_specification]
#[verifier::external_body]
pub struct ExPathBuf(std::path::PathBuf);

/// `Url::to_file_path` turns the path component into a path of the file system.
/// That takes a path component which starts with a slash.  Which path it is, and
/// for which hosts there is one, differs from platform to platform and is left
/// open.
pub assume_specification[ Url::to_file_path ](url: &Url) -> (path: Result<
    std::path::PathBuf,
    (),
>)
    ensures
        path is Ok ==> url_path(*url).len() > 0 && url_path(*url)[0] == '/',
;

/// The URL with this serialization names a local file.
pub open spec fn names_file(text: Seq<char>) -> bool {
    "file:"@.is_prefix_of(text)
}

/// Whether a URL names a local file.
pub fn is_file_url(url: &Url) -> (res: bool)
    ensures
        res == names_file(url_text(*url)),
{
    let scheme = url.scheme();
    proof {
        reveal_strlit("file");
        reveal_strlit("file:");
        let text = url_text(*url);
        let n = scheme@.len() as int;
        let prefix = scheme@.push(':');
        assert(prefix[n] == ':');
        assert(prefix == text.take(n + 1));
        assert(text[n] == ':');
        assert forall|i: int| 0 <= i < n implies text[i] == scheme@[i] && text[i] != ':' by {
            assert(prefix[i] == scheme@[i]);
            assert(text.take(n + 1)[i] == text[i]);
            assert(scheme@.contains(scheme@[i]));
        }
        if "file:"@.is_prefix_of(text) {
            let file = "file:"@;
            assert(file == text.take(5));
            assert forall|i: int| 0 <= i < 5 implies file[i] == text[i] by {
                assert(text.take(5)[i] == text[i]);
            }
            assert(n == 4) by {
                if n < 4 {
                    assert(file[n] == ':');
                } else if n > 4 {
                    assert(text[4] == ':');
                }
            }
            assert(scheme@[0] == file[0] && scheme@[1] == file[1]);
            assert(scheme@[2] == file[2] && scheme@[3] == file[3]);
            assert(scheme@ =~= "file"@);
        }
        if scheme@ == "file"@ {
            assert("file:"@ =~= text.take(5));
        }
    }
    same_text(scheme, "file")
}

/// Calls a function on a URL: the answer is one that the function can give.
fn ask<F: Fn(&Url) -> Result<std::path::PathBuf, ()>>(f: F, url: &Url) -> (answer: Result<
    std::path::PathBuf,
    (),
>)
    requires
        f.requires((url,)),
    ensures
        f.ensures((url,), answer),
{
    f(url)
}

/// The file that a URL names: none if it is no file URL, or if it has no path on
/// this platform (a file URL with a foreign host has none on Unix).  For a file URL
/// it is what `Url::to_file_path` answers with.
pub fn local_file(url: &Url) -> (res: Option<std::path::PathBuf>)
    ensures
        res is Some ==> names_file(url_text(*url)),
        res is Some ==> url_path(*url).len() > 0 && url_path(*url)[0] == '/',
        names_file(url_text(*url)) ==> call_ensures(
            Url::to_file_path,
            (url,),
            match res {
                Some(path) => Ok(path),
                None => Err(()),
            },
        ),
{
    if !is_file_url(url) {
        return None;
    }
    match ask(Url::to_file_path, url) {
        Ok(path) => Some(path),
        Err(nothing) => {
            assert(nothing == ());
            None
        },
    }
}

} // verus!
