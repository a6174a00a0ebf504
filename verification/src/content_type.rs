//! Content-type negotiation: pick the configured descriptor that governs a
//! request, from its `Accept`-style header or from the path's file extension.

use vstd::prelude::*;

use crate::config::{ContentTypeConfig, WebSimConfig};
use crate::utils::{
    contains_str, find_last, first_match_index, last_index_of, lemma_first_match_index_found,
    lemma_first_match_index_none, lemma_last_index_of_props, str_contains, str_eq,
};

verus! {

/// What `str::to_lowercase` returns: a function of the characters alone.
pub uninterp spec fn lower_of(s: Seq<char>) -> Seq<char>;

/// Relies on str::to_lowercase to fold an extension to lower case; the result
/// depends on the input characters alone.
#[verifier::external_body]
fn to_lowercase(s: &str) -> (r: String)
    ensures
        r@ == lower_of(s@),
{
    s.to_lowercase()
}

/// An entry matches an `Accept`-style header when its media-type key is a
/// substring of the header value.
pub open spec fn accept_pred(accept: Seq<char>) -> spec_fn((String, ContentTypeConfig)) -> bool {
    |e: (String, ContentTypeConfig)| str_contains(accept, e.0@)
}

/// An entry matches a media-type key exactly.
pub open spec fn key_pred(key: Seq<char>) -> spec_fn((String, ContentTypeConfig)) -> bool {
    |e: (String, ContentTypeConfig)| e.0@ == key
}

/// The descriptor's extension set contains `ext`.
pub open spec fn has_extension(ct: ContentTypeConfig, ext: Seq<char>) -> bool {
    exists|k: int| 0 <= k < ct.extensions@.len() && ct.extensions@[k]@ == ext
}

/// An entry matches a file extension when its descriptor owns it.
pub open spec fn ext_pred(ext: Seq<char>) -> spec_fn((String, ContentTypeConfig)) -> bool {
    |e: (String, ContentTypeConfig)| has_extension(e.1, ext)
}

pub open spec fn accept_view(accept_header: Option<&str>) -> Option<Seq<char>> {
    match accept_header {
        Some(a) => Some(a@),
        None => None,
    }
}

/// Index of the first entry matching the `Accept`-style header, if any.
pub open spec fn accept_resolution(
    cts: Seq<(String, ContentTypeConfig)>,
    accept: Option<Seq<char>>,
) -> Option<int> {
    match accept {
        Some(a) => {
            let i = first_match_index(cts, accept_pred(a));
            if i >= 0 {
                Some(i)
            } else {
                None
            }
        },
        None => None,
    }
}

/// The final segment of a path: everything after the last `'/'`.
pub open spec fn last_segment_spec(p: Seq<char>) -> Seq<char> {
    p.subrange(last_index_of(p, '/') + 1, p.len() as int)
}

/// Whether the final segment carries a file extension.
pub open spec fn segment_has_dot(p: Seq<char>) -> bool {
    last_index_of(last_segment_spec(p), '.') >= 0
}

/// The extension as written: everything after the last `'.'` of the final
/// segment.
pub open spec fn raw_extension_spec(p: Seq<char>) -> Seq<char> {
    let seg = last_segment_spec(p);
    seg.subrange(last_index_of(seg, '.') + 1, seg.len() as int)
}

/// Index of the entry a path resolves to: extension-less paths are pages and
/// fall to the `text/html` key; otherwise the lower-cased extension selects
/// the first descriptor owning it.
pub open spec fn path_resolution(
    cts: Seq<(String, ContentTypeConfig)>,
    path: Seq<char>,
) -> Option<int> {
    if !segment_has_dot(path) {
        let i = first_match_index(cts, key_pred("text/html"@));
        if i >= 0 {
            Some(i)
        } else {
            None
        }
    } else {
        let i = first_match_index(cts, ext_pred(lower_of(raw_extension_spec(path))));
        if i >= 0 {
            Some(i)
        } else {
            None
        }
    }
}

/// Determines the content type based on the Accept header.
pub fn determine_from_accept<'a>(accept_header: Option<&str>, config: &'a WebSimConfig) -> (r:
    Option<(&'a String, &'a ContentTypeConfig)>)
    ensures
        ({
            let cts = config.content_types@;
            match accept_resolution(cts, accept_view(accept_header)) {
                Some(i) => r matches Some((m, ct)) && *m == cts[i].0 && *ct == cts[i].1,
                None => r is None,
            }
        }),
{
    let accept = match accept_header {
        Some(a) => a,
        None => {
            return None;
        },
    };
    let n = config.content_types.len();
    let mut i: usize = 0;
    while i < n
        invariant
            i <= n,
            n == config.content_types@.len(),
            accept_view(accept_header) == Some(accept@),
            forall|j: int| 0 <= j < i ==> !str_contains(accept@, config.content_types@[j].0@),
        decreases n - i,
    {
        let entry = &config.content_types[i];
        if contains_str(accept, entry.0.as_str()) {
            proof {
                lemma_first_match_index_found(config.content_types@, accept_pred(accept@), i as int);
            }
            return Some((&entry.0, &entry.1));
        }
        i = i + 1;
    }
    proof {
        lemma_first_match_index_none(config.content_types@, accept_pred(accept@));
    }
    None
}

/// Whether the descriptor's extension list contains `ext`.
fn ext_list_contains(ct: &ContentTypeConfig, ext: &str) -> (r: bool)
    ensures
        r == has_extension(*ct, ext@),
{
    let n = ct.extensions.len();
    let mut k: usize = 0;
    while k < n
        invariant
            k <= n,
            n == ct.extensions@.len(),
            forall|j: int| 0 <= j < k ==> ct.extensions@[j]@ != ext@,
        decreases n - k,
    {
        if str_eq(ct.extensions[k].as_str(), ext) {
            return true;
        }
        k = k + 1;
    }
    false
}

/// Finds the first entry whose media-type key equals `key` exactly.
pub(crate) fn find_by_key<'a>(config: &'a WebSimConfig, key: &str) -> (r: Option<
    (&'a String, &'a ContentTypeConfig),
>)
    ensures
        ({
            let cts = config.content_types@;
            let i = first_match_index(cts, key_pred(key@));
            if i >= 0 {
                r matches Some((m, ct)) && *m == cts[i].0 && *ct == cts[i].1
            } else {
                r is None
            }
        }),
{
    let n = config.content_types.len();
    let mut i: usize = 0;
    while i < n
        invariant
            i <= n,
            n == config.content_types@.len(),
            forall|j: int| 0 <= j < i ==> config.content_types@[j].0@ != key@,
        decreases n - i,
    {
        let entry = &config.content_types[i];
        if str_eq(entry.0.as_str(), key) {
            proof {
                lemma_first_match_index_found(config.content_types@, key_pred(key@), i as int);
            }
            return Some((&entry.0, &entry.1));
        }
        i = i + 1;
    }
    proof {
        lemma_first_match_index_none(config.content_types@, key_pred(key@));
    }
    None
}

/// Determines the content type based on the request path.
pub fn determine_from_path<'a>(path: &str, config: &'a WebSimConfig) -> (r: Option<
    (&'a String, &'a ContentTypeConfig),
>)
    ensures
        ({
            let cts = config.content_types@;
            match path_resolution(cts, path@) {
                Some(i) => r matches Some((m, ct)) && *m == cts[i].0 && *ct == cts[i].1,
                None => r is None,
            }
        }),
{
    let n = path.unicode_len();
    proof {
        lemma_last_index_of_props(path@, '/');
    }
    let seg_start: usize = match find_last(path, '/') {
        Some(i) => i + 1,
        None => 0,
    };
    let seg = path.substring_char(seg_start, n);
    proof {
        assert(seg@ =~= last_segment_spec(path@));
    }
    match find_last(seg, '.') {
        None => {
            // No extension means HTML - look for text/html in config
            find_by_key(config, "text/html")
        },
        Some(d) => {
            proof {
                lemma_last_index_of_props(seg@, '.');
            }
            let raw = seg.substring_char(d + 1, seg.unicode_len());
            proof {
                assert(raw@ =~= raw_extension_spec(path@));
            }
            let ext = to_lowercase(raw);
            let m = config.content_types.len();
            let mut i: usize = 0;
            while i < m
                invariant
                    i <= m,
                    m == config.content_types@.len(),
                    segment_has_dot(path@),
                    ext@ == lower_of(raw_extension_spec(path@)),
                    forall|j: int|
                        0 <= j < i ==> !has_extension(config.content_types@[j].1, ext@),
                decreases m - i,
            {
                let entry = &config.content_types[i];
                if ext_list_contains(&entry.1, ext.as_str()) {
                    proof {
                        lemma_first_match_index_found(
                            config.content_types@,
                            ext_pred(ext@),
                            i as int,
                        );
                    }
                    return Some((&entry.0, &entry.1));
                }
                i = i + 1;
            }
            proof {
                lemma_first_match_index_none(config.content_types@, ext_pred(ext@));
            }
            None
        },
    }
}

} // verus!
