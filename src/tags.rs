//! The tag extractor: finds the top-level `{{ ... }}` bodies of a text.
use vstd::prelude::*;

use crate::text::{chars_of, strings_view, substring};

verus! {

/// An opening marker `{{` starts at position `i` of `s`.
pub open spec fn opens_at(s: Seq<char>, i: int) -> bool {
    0 <= i && i + 1 < s.len() && s[i] == '{' && s[i + 1] == '{'
}

/// A closing marker `}}` starts at position `i` of `s`.
pub open spec fn closes_at(s: Seq<char>, i: int) -> bool {
    0 <= i && i + 1 < s.len() && s[i] == '}' && s[i + 1] == '}'
}

/// Where a left-to-right scan over the markers stands: the scope counter,
/// where the body of the current outermost tag starts, and the spans
/// `[start, end)` of the bodies emitted so far.
pub struct ScanState {
    pub depth: int,
    pub start: int,
    pub spans: Seq<(int, int)>,
}

/// The scan state before any marker is read.
pub open spec fn scan_init() -> ScanState {
    ScanState { depth: 0, start: 0, spans: Seq::empty() }
}

/// The state after an opening marker whose body would start at `body`.
pub open spec fn after_open(st: ScanState, body: int) -> ScanState {
    ScanState {
        depth: st.depth + 1,
        start: if st.depth == 0 {
            body
        } else {
            st.start
        },
        spans: st.spans,
    }
}

/// The state after a closing marker at position `at`: a body ends there
/// when the counter comes back to zero.
pub open spec fn after_close(st: ScanState, at: int) -> ScanState {
    ScanState {
        depth: st.depth - 1,
        start: st.start,
        spans: if st.depth - 1 == 0 {
            st.spans.push((st.start, at))
        } else {
            st.spans
        },
    }
}

/// Reads the markers of `s` from position `i` on. Markers do not overlap:
/// after one is read, the scan goes on behind it.
pub open spec fn scan_from(s: Seq<char>, i: int, st: ScanState) -> ScanState
    decreases s.len() - i,
{
    if i < 0 || i + 1 >= s.len() {
        st
    } else if opens_at(s, i) {
        scan_from(s, i + 2, after_open(st, i + 2))
    } else if closes_at(s, i) {
        scan_from(s, i + 2, after_close(st, i))
    } else {
        scan_from(s, i + 1, st)
    }
}

/// The top-level tag bodies of `s` in order, or `None` when the markers do
/// not balance.
pub open spec fn extract(s: Seq<char>) -> Option<Seq<Seq<char>>> {
    let end = scan_from(s, 0, scan_init());
    if end.depth != 0 {
        None
    } else {
        Some(end.spans.map_values(|sp: (int, int)| s.subrange(sp.0, sp.1)))
    }
}

/// The spans of a scan state, as exact indices.
spec fn spans_view(v: Seq<(usize, usize)>) -> Seq<(int, int)> {
    v.map_values(|sp: (usize, usize)| (sp.0 as int, sp.1 as int))
}

/// The bodies of the top-level tags of `content`, in order of appearance.
/// Markers nested inside a body stay in it verbatim. Returns `None` when the
/// opening and closing markers do not balance.
pub fn get_tags(content: &str) -> (r: Option<Vec<String>>)
    ensures
        match (r, extract(content@)) {
            (Some(v), Some(bodies)) => strings_view(v@) == bodies,
            (None, None) => true,
            _ => false,
        },
{
    let cs = chars_of(content);
    let n = cs.len();
    let ghost s = content@;
    // The counter is `above - below`; one of the two is always zero.
    let mut above: usize = 0;
    let mut below: usize = 0;
    let mut start: usize = 0;
    let mut spans: Vec<(usize, usize)> = Vec::new();
    let mut i: usize = 0;
    assert(spans_view(spans@) =~= Seq::empty());
    while i < n && n - i > 1
        invariant
            cs@ == s,
            n == s.len(),
            i <= n,
            above == 0 || below == 0,
            above <= i,
            below <= i,
            above > 0 ==> start <= i,
            forall|k: int|
                0 <= k < spans@.len() ==> #[trigger] spans@[k].0 <= spans@[k].1 <= n,
            scan_from(s, 0, scan_init()) == scan_from(
                s,
                i as int,
                ScanState {
                    depth: above - below,
                    start: start as int,
                    spans: spans_view(spans@),
                },
            ),
        decreases n - i,
    {
        if cs[i] == '{' && cs[i + 1] == '{' {
            if below > 0 {
                below = below - 1;
            } else {
                if above == 0 {
                    start = i + 2;
                }
                above = above + 1;
            }
            i = i + 2;
        } else if cs[i] == '}' && cs[i + 1] == '}' {
            if above > 0 {
                above = above - 1;
                if above == 0 {
                    let ghost before = spans@;
                    spans.push((start, i));
                    assert(spans_view(spans@) =~= spans_view(before).push(
                        (start as int, i as int),
                    ));
                }
            } else {
                below = below + 1;
            }
            i = i + 2;
        } else {
            i = i + 1;
        }
    }
    if above != 0 || below != 0 {
        return None;
    }
    let mut bodies: Vec<String> = Vec::new();
    let mut k: usize = 0;
    while k < spans.len()
        invariant
            n == s.len(),
            s == content@,
            k <= spans@.len(),
            forall|j: int|
                0 <= j < spans@.len() ==> #[trigger] spans@[j].0 <= spans@[j].1 <= n,
            strings_view(bodies@) == spans_view(spans@).subrange(0, k as int).map_values(
                |sp: (int, int)| s.subrange(sp.0, sp.1),
            ),
        decreases spans@.len() - k,
    {
        let (a, b) = spans[k];
        let body = substring(content, a, b);
        let ghost before = bodies@;
        bodies.push(body);
        assert(strings_view(bodies@) =~= spans_view(spans@).subrange(0, k as int + 1).map_values(
            |sp: (int, int)| s.subrange(sp.0, sp.1),
        )) by {
            assert(strings_view(bodies@) =~= strings_view(before).push(body@));
        }
        k = k + 1;
    }
    assert(spans_view(spans@).subrange(0, k as int) =~= spans_view(spans@));
    Some(bodies)
}

} // verus!
