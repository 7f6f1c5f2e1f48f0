//! The image addresses of an album page: where they are in the page, how
//! the variants of one image become one address, and the file that each
//! image is saved to.

use vstd::prelude::*;
use vstd::string::*;
use crate::text::{dedup, first_occurrences, texts, zero_padded, zero_padded_string};

verus! {

/// The shape of an image address in an album page.
pub const IMAGE_URL_PATTERN: &'static str = r"https://lh3\.googleusercontent\.com/[a-zA-Z0-9_\-=/]+";

/// The character that begins the size part of an address.
pub const SIZE_MARK: char = '=';

/// The error of `regex::Regex::new`, carried through as it is.
#[verifier::external_type_specification]
#[verifier::external_body]
pub struct ExRegexError(regex::Error);

/// Why a page gave no addresses.
#[derive(Debug, Clone, Copy, PartialEq, Eq, Structural)]
pub enum ScrapeError {
    /// The pattern of the addresses could not be compiled.
    Pattern,
}

/// The successive non-overlapping matches of the regular expression
/// `pattern` in `haystack`, in the order in which they occur there, or
/// `None` where `pattern` is not a regular expression that can be compiled.
pub uninterp spec fn regex_matches(pattern: Seq<char>, haystack: Seq<char>) -> Option<
    Seq<Seq<char>>,
>;

/// Compiles `pattern` with `regex::Regex::new` and collects the text of
/// every match that `Regex::find_iter` yields on `haystack`. The contract
/// names that list and states nothing else of it; a pattern that `new`
/// refuses gives its error.
#[verifier::external_body]
fn find_all(pattern: &str, haystack: &str) -> (found: Result<Vec<String>, regex::Error>)
    ensures
        match found {
            Ok(list) => regex_matches(pattern@, haystack@) == Some(texts(list@)),
            Err(_) => regex_matches(pattern@, haystack@) is None,
        },
{
    let re = regex::Regex::new(pattern)?;
    Ok(re.find_iter(haystack).map(|m| m.as_str().to_string()).collect())
}

/// Length of the part of an address before its size part: the place of
/// the first size mark, or the whole length where there is none.
pub open spec fn canonical_len(url: Seq<char>) -> int
    decreases url.len(),
{
    if url.len() == 0 || url[0] == SIZE_MARK {
        0
    } else {
        1 + canonical_len(url.drop_first())
    }
}

/// The address without its size part.
pub open spec fn canonical(url: Seq<char>) -> Seq<char> {
    url.take(canonical_len(url))
}

/// The canonical address ends before the first size mark of the address,
/// and is the whole address where it has none.
pub proof fn lemma_canonical(url: Seq<char>)
    ensures
        0 <= canonical_len(url) <= url.len(),
        !canonical(url).contains(SIZE_MARK),
        canonical_len(url) < url.len() ==> url[canonical_len(url)] == SIZE_MARK,
        !url.contains(SIZE_MARK) ==> canonical(url) == url,
    decreases url.len(),
{
    if url.len() > 0 && url[0] != SIZE_MARK {
        let rest = url.drop_first();
        lemma_canonical(rest);
        let c = canonical(url);
        if c.contains(SIZE_MARK) {
            let i = choose|i: int| 0 <= i < c.len() && c[i] == SIZE_MARK;
            assert(canonical(rest)[i - 1] == SIZE_MARK);
        }
        if !url.contains(SIZE_MARK) {
            if rest.contains(SIZE_MARK) {
                let i = choose|i: int| 0 <= i < rest.len() && rest[i] == SIZE_MARK;
                assert(url[i + 1] == SIZE_MARK);
            }
            assert(canonical(url) =~= url);
        }
    } else {
        if url.len() > 0 {
            assert(url[0] == SIZE_MARK);
        }
        assert(canonical(url) =~= Seq::<char>::empty());
        if !url.contains(SIZE_MARK) {
            assert(url.len() == 0);
            assert(canonical(url) =~= url);
        }
    }
}

/// The canonical addresses of the matches of a page, each once, in the
/// order in which the page first shows them.
pub open spec fn canonical_urls(found: Seq<Seq<char>>) -> Seq<Seq<char>> {
    first_occurrences(Seq::new(found.len(), |i: int| canonical(found[i])))
}

/// Cuts the size part off an address.
pub fn canonicalize(url: &str) -> (out: String)
    ensures
        out@ == canonical(url@),
{
    let n = url.unicode_len();
    let mut i: usize = 0;
    assert(url@.skip(0) =~= url@);
    while i < n && url.get_char(i) != SIZE_MARK
        invariant
            i <= n,
            n == url@.len(),
            canonical_len(url@) == i + canonical_len(url@.skip(i as int)),
        decreases n - i,
    {
        proof {
            let rest = url@.skip(i as int);
            assert(rest[0] == url@[i as int]);
            assert(rest.drop_first() =~= url@.skip(i + 1));
        }
        i += 1;
    }
    proof {
        let rest = url@.skip(i as int);
        if i < n {
            assert(rest[0] == url@[i as int]);
        }
        assert(canonical_len(rest) == 0);
    }
    url.substring_char(0, i).to_owned()
}

/// The addresses to download for a list of matches: the size parts cut
/// off, and of addresses that then are the same only the first.
pub fn collapse(found: &Vec<String>) -> (urls: Vec<String>)
    ensures
        texts(urls@) == canonical_urls(texts(found@)),
{
    let mut cut: Vec<String> = Vec::new();
    let mut i: usize = 0;
    while i < found.len()
        invariant
            i <= found.len(),
            cut.len() == i,
            forall|j: int| 0 <= j < i ==> (#[trigger] cut[j])@ == canonical(found[j]@),
        decreases found.len() - i,
    {
        cut.push(canonicalize(found[i].as_str()));
        i += 1;
    }
    assert(texts(cut@) =~= Seq::new(
        texts(found@).len(),
        |i: int| canonical(texts(found@)[i]),
    ));
    dedup(&cut)
}

/// The canonical addresses of what `pattern` matches in a page, each once.
/// A pattern that is no regular expression is an error.
pub fn matching_urls(pattern: &str, html: &str) -> (urls: Result<Vec<String>, ScrapeError>)
    ensures
        match regex_matches(pattern@, html@) {
            Some(found) => urls matches Ok(list) && texts(list@) == canonical_urls(found),
            None => urls == Err::<Vec<String>, ScrapeError>(ScrapeError::Pattern),
        },
{
    match find_all(pattern, html) {
        Ok(found) => Ok(collapse(&found)),
        Err(_) => Err(ScrapeError::Pattern),
    }
}

/// The addresses of the images of an album page, each image once.
///
/// They are the canonical addresses of the matches of `IMAGE_URL_PATTERN`
/// in the page.
pub fn extract_image_urls(html: &str) -> (urls: Result<Vec<String>, ScrapeError>)
    ensures
        match regex_matches(IMAGE_URL_PATTERN@, html@) {
            Some(found) => urls matches Ok(list) && texts(list@) == canonical_urls(found),
            None => urls == Err::<Vec<String>, ScrapeError>(ScrapeError::Pattern),
        },
{
    matching_urls(IMAGE_URL_PATTERN, html)
}

/// One image to fetch and the file to save it to.
#[derive(Debug)]
pub struct Download {
    pub url: String,
    pub path: String,
}

/// The name of the file for image number `index` in directory `dir`: the
/// number has at least four digits.
pub open spec fn image_path(dir: Seq<char>, index: nat) -> Seq<char> {
    dir + "/img_"@ + zero_padded(index, 4) + ".jpg"@
}

/// The file that image number `index` is saved to.
pub fn image_filename(dir: &str, index: usize) -> (path: String)
    ensures
        path@ == image_path(dir@, index as nat),
{
    let mut path = String::from_str(dir);
    path.append("/img_");
    path.append(zero_padded_string(index as u64, 4).as_str());
    path.append(".jpg");
    path
}

/// The downloads of a scrape, in order: every address with the file of
/// its number. The caller fetches them one after the other and gives up
/// at the first that fails.
pub fn download_plan(dir: &str, urls: &Vec<String>) -> (plan: Vec<Download>)
    ensures
        plan.len() == urls.len(),
        forall|i: int|
            0 <= i < plan.len() ==> (#[trigger] plan[i]).url@ == urls[i]@ && plan[i].path@
                == image_path(dir@, i as nat),
{
    let mut plan: Vec<Download> = Vec::new();
    let mut i: usize = 0;
    while i < urls.len()
        invariant
            i <= urls.len(),
            plan.len() == i,
            forall|j: int|
                0 <= j < i ==> (#[trigger] plan[j]).url@ == urls[j]@ && plan[j].path@
                    == image_path(dir@, j as nat),
        decreases urls.len() - i,
    {
        plan.push(Download { url: urls[i].clone(), path: image_filename(dir, i) });
        i += 1;
    }
    plan
}

/// What has to be downloaded for an album page, and where to: the images
/// of the page, each once, with the files of their numbers in `path`.
pub fn scrape(path: &str, html: &str) -> (plan: Result<Vec<Download>, ScrapeError>)
    ensures
        match regex_matches(IMAGE_URL_PATTERN@, html@) {
            Some(found) => plan matches Ok(list) && list.len() == canonical_urls(found).len()
                && forall|i: int|
                0 <= i < list.len() ==> (#[trigger] list[i]).url@ == canonical_urls(found)[i]
                    && list[i].path@ == image_path(path@, i as nat),
            None => plan matches Err(ScrapeError::Pattern),
        },
{
    match extract_image_urls(html) {
        Ok(urls) => {
            let list = download_plan(path, &urls);
            assert forall|i: int| 0 <= i < list.len() implies (#[trigger] list[i]).url@ == texts(
                urls@,
            )[i] by {}
            Ok(list)
        },
        Err(e) => Err(e),
    }
}

} // verus!
