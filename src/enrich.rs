//! Decisions of detail enrichment: which details still need content, how a
//! reply of the generation service becomes stored HTML, and the prompts
//! sent to it. The service calls themselves are made by the caller.
use vstd::prelude::*;

use crate::error::{TripError, UpstreamKind};
use crate::model::Detail;
use crate::text::{append_range, chars_of};

verus! {

/// The characters that `char::is_whitespace` accepts (Unicode White_Space).
pub open spec fn is_space(c: char) -> bool {
    ('\t' <= c && c <= '\r') || c == ' ' || c == '\u{85}' || c == '\u{a0}' || c == '\u{1680}' || (
    '\u{2000}' <= c && c <= '\u{200a}') || c == '\u{2028}' || c == '\u{2029}' || c == '\u{202f}'
        || c == '\u{205f}' || c == '\u{3000}'
}

fn is_space_exec(c: char) -> (r: bool)
    ensures
        r == is_space(c),
{
    ('\t' <= c && c <= '\r') || c == ' ' || c == '\u{85}' || c == '\u{a0}' || c == '\u{1680}' || (
    '\u{2000}' <= c && c <= '\u{200a}') || c == '\u{2028}' || c == '\u{2029}' || c == '\u{202f}'
        || c == '\u{205f}' || c == '\u{3000}'
}

/// A code-fence marker.
pub open spec fn fence() -> Seq<char> {
    seq!['`', '`', '`']
}

/// The opening fence of an HTML block.
pub open spec fn html_fence() -> Seq<char> {
    seq!['`', '`', '`', 'h', 't', 'm', 'l']
}

pub open spec fn starts_with(s: Seq<char>, w: Seq<char>) -> bool {
    w.len() <= s.len() && s.take(w.len() as int) == w
}

pub open spec fn ends_with(s: Seq<char>, w: Seq<char>) -> bool {
    w.len() <= s.len() && s.skip(s.len() - w.len()) == w
}

/// A reply with surrounding whitespace and code-fence markers removed, as
/// long as any remain.
pub open spec fn cleaned(s: Seq<char>) -> Seq<char>
    decreases s.len(),
{
    if s.len() > 0 && is_space(s[0]) {
        cleaned(s.drop_first())
    } else if s.len() > 0 && is_space(s.last()) {
        cleaned(s.drop_last())
    } else if starts_with(s, html_fence()) {
        cleaned(s.skip(7))
    } else if starts_with(s, fence()) {
        cleaned(s.skip(3))
    } else if ends_with(s, fence()) {
        cleaned(s.take(s.len() - 3))
    } else {
        s
    }
}

/// Text that neither starts nor ends with whitespace or a fence marker.
pub open spec fn is_clean(s: Seq<char>) -> bool {
    &&& !starts_with(s, fence())
    &&& !ends_with(s, fence())
    &&& s.len() > 0 ==> !is_space(s[0]) && !is_space(s.last())
}

/// Cleaning leaves no surrounding whitespace or fence marker behind.
pub proof fn lemma_cleaned_is_clean(s: Seq<char>)
    ensures
        is_clean(cleaned(s)),
    decreases s.len(),
{
    if s.len() > 0 && is_space(s[0]) {
        lemma_cleaned_is_clean(s.drop_first());
    } else if s.len() > 0 && is_space(s.last()) {
        lemma_cleaned_is_clean(s.drop_last());
    } else if starts_with(s, html_fence()) {
        lemma_cleaned_is_clean(s.skip(7));
    } else if starts_with(s, fence()) {
        lemma_cleaned_is_clean(s.skip(3));
    } else if ends_with(s, fence()) {
        lemma_cleaned_is_clean(s.take(s.len() - 3));
    }
}

/// Removes surrounding whitespace and code-fence markers from a reply.
pub fn clean_reply(raw: &str) -> (r: String)
    ensures
        r@ == cleaned(raw@),
        is_clean(r@),
{
    let t = chars_of(raw);
    let mut lo: usize = 0;
    let mut hi: usize = t.len();
    let mut done = false;
    proof {
        assert(t@.subrange(0, t@.len() as int) =~= t@);
    }
    while !done && lo < hi
        invariant
            lo <= hi <= t@.len(),
            cleaned(t@.subrange(lo as int, hi as int)) == cleaned(t@),
            done ==> cleaned(t@.subrange(lo as int, hi as int)) == t@.subrange(lo as int, hi as int),
        decreases hi - lo + if done { 0int } else { 1int },
    {
        let ghost s = t@.subrange(lo as int, hi as int);
        if is_space_exec(t[lo]) {
            proof {
                assert(s.drop_first() =~= t@.subrange(lo + 1, hi as int));
            }
            lo += 1;
        } else if is_space_exec(t[hi - 1]) {
            proof {
                assert(s.drop_last() =~= t@.subrange(lo as int, hi - 1));
            }
            hi -= 1;
        } else if hi - lo >= 7 && t[lo] == '`' && t[lo + 1] == '`' && t[lo + 2] == '`' && t[lo + 3]
            == 'h' && t[lo + 4] == 't' && t[lo + 5] == 'm' && t[lo + 6] == 'l' {
            proof {
                assert(s.take(7) =~= html_fence());
                assert(s.skip(7) =~= t@.subrange(lo + 7, hi as int));
            }
            lo += 7;
        } else if hi - lo >= 3 && t[lo] == '`' && t[lo + 1] == '`' && t[lo + 2] == '`' {
            proof {
                if starts_with(s, html_fence()) {
                    assert(s[3] == html_fence()[3]);
                    assert(s[6] == html_fence()[6]);
                }
                assert(s.take(3) =~= fence());
                assert(s.skip(3) =~= t@.subrange(lo + 3, hi as int));
            }
            lo += 3;
        } else if hi - lo >= 3 && t[hi - 3] == '`' && t[hi - 2] == '`' && t[hi - 1] == '`' {
            proof {
                if starts_with(s, html_fence()) {
                    assert(s[6] == html_fence()[6]);
                }
                if starts_with(s, fence()) {
                    assert(s[2] == fence()[2]);
                }
                assert(s.skip(s.len() - 3) =~= fence());
                assert(s.take(s.len() - 3) =~= t@.subrange(lo as int, hi - 3));
            }
            hi -= 3;
        } else {
            proof {
                if starts_with(s, html_fence()) {
                    assert(s[6] == html_fence()[6]);
                }
                if starts_with(s, fence()) {
                    assert(s[2] == fence()[2]);
                }
                if ends_with(s, fence()) {
                    assert(s[s.len() - 1] == fence()[2]);
                }
            }
            done = true;
        }
    }
    proof {
        if !done {
            assert(t@.subrange(lo as int, hi as int) =~= Seq::<char>::empty());
        }
    }
    let mut r = String::new();
    append_range(&mut r, &t, lo, hi);
    proof {
        assert(r@ =~= t@.subrange(lo as int, hi as int));
        lemma_cleaned_is_clean(raw@);
    }
    r
}

/// Turns the generation service's reply into the HTML to store. A reply
/// that is empty once cleaned is a failure of the service, which was asked
/// never to answer with nothing.
pub fn reply_to_html(raw: &str) -> (r: Result<String, TripError>)
    ensures
        r is Ok <==> cleaned(raw@).len() > 0,
        r matches Ok(h) ==> h@ == cleaned(raw@),
        r is Err ==> r == Err::<String, TripError>(TripError::Upstream(UpstreamKind::Unknown)),
{
    let h = clean_reply(raw);
    if h.as_str().is_empty() {
        Err(TripError::Upstream(UpstreamKind::Unknown))
    } else {
        Ok(h)
    }
}

/// A detail still waits for its content.
pub open spec fn is_pending(d: Detail) -> bool {
    d.html@.len() == 0
}

/// Whether the detail's content must be generated before it is shown.
pub fn needs_enrichment(d: &Detail) -> (r: bool)
    ensures
        r == is_pending(*d),
{
    d.html.as_str().is_empty()
}

/// The first pending detail at or after `from`.
pub open spec fn first_pending(ds: Seq<Detail>, from: int) -> Option<int>
    decreases ds.len() - from,
{
    if from < 0 || from >= ds.len() {
        None
    } else if is_pending(ds[from]) {
        Some(from)
    } else {
        first_pending(ds, from + 1)
    }
}

/// The next detail, at or after `from`, whose content the read path must
/// generate; none when every remaining detail has content.
pub fn next_pending(ds: &Vec<Detail>, from: usize) -> (r: Option<usize>)
    ensures
        r == (match first_pending(ds@, from as int) {
            Some(k) => Some(k as usize),
            None => None::<usize>,
        }),
        r matches Some(k) ==> from <= k < ds@.len() && is_pending(ds@[k as int])
            && first_pending(ds@, from as int) == Some(k as int),
        r is None ==> first_pending(ds@, from as int) is None,
{
    proof {
        lemma_first_pending_bounds(ds@, from as int);
    }
    let mut i: usize = from;
    while i < ds.len()
        invariant
            from <= i,
            first_pending(ds@, i as int) == first_pending(ds@, from as int),
        decreases ds@.len() - i,
    {
        if ds[i].html.as_str().is_empty() {
            return Some(i);
        }
        i += 1;
    }
    None
}

proof fn lemma_first_pending_bounds(ds: Seq<Detail>, from: int)
    ensures
        first_pending(ds, from) matches Some(k) ==> from <= k < ds.len() && is_pending(ds[k]),
    decreases ds.len() - from,
{
    if 0 <= from < ds.len() && !is_pending(ds[from]) {
        lemma_first_pending_bounds(ds, from + 1);
    }
}

/// Stores generated content in a detail, touched at `now`. Only content
/// that is non-empty and clean is accepted, so the detail is no longer
/// pending afterwards.
pub fn apply_generated_html(d: &mut Detail, raw: &str, now: i64) -> (r: Result<(), TripError>)
    ensures
        r is Ok <==> cleaned(raw@).len() > 0,
        r is Ok ==> *final(d) == (Detail { html: final(d).html, updated_at: now, ..*old(d) })
            && final(d).html@ == cleaned(raw@) && !is_pending(*final(d)) && is_clean(
            final(d).html@,
        ),
        r is Err ==> *final(d) == *old(d) && r == Err::<(), TripError>(
            TripError::Upstream(UpstreamKind::Unknown),
        ),
{
    match reply_to_html(raw) {
        Ok(h) => {
            proof {
                lemma_cleaned_is_clean(raw@);
            }
            d.html = h;
            d.updated_at = now;
            Ok(())
        },
        Err(e) => Err(e),
    }
}

/// A detail that already has content is never chosen for generation when
/// the details are read again, wherever the read resumes.
pub proof fn lemma_content_is_never_regenerated(ds: Seq<Detail>, from: int, k: int)
    requires
        0 <= k < ds.len(),
        !is_pending(ds[k]),
    ensures
        first_pending(ds, from) != Some(k),
{
    lemma_first_pending_bounds(ds, from);
}

} // verus!
