//! Findings as text.

use crate::text;
use crate::text::{concat3, format_usize};
use crate::token::LocSpan;
use vstd::prelude::*;

verus! {

/// The location of a span as `line:column`.
pub open spec fn location_text(span: LocSpan) -> Seq<char> {
    text::nat_text(span.start_linecol.line as nat) + ":"@ + text::nat_text(
        span.start_linecol.col as nat,
    )
}

/// The start of a span as `line:column`.
pub fn format_location(span: &LocSpan) -> (out: String)
    ensures
        out@ == location_text(*span),
{
    let line: String = format_usize(span.start_linecol.line);
    let col: String = format_usize(span.start_linecol.col);
    concat3(line.as_str(), ":", col.as_str())
}

/// Texts with a separator between them.
pub open spec fn joined(parts: Seq<Seq<char>>, separator: Seq<char>) -> Seq<char>
    decreases parts.len(),
{
    if parts.len() == 0 {
        Seq::empty()
    } else if parts.len() == 1 {
        parts[0]
    } else {
        joined(parts.drop_last(), separator) + separator + parts.last()
    }
}

/// The strings with a separator between them.
pub fn join_strings(parts: &Vec<String>, separator: &str) -> (out: String)
    ensures
        out@ == joined(text::views(parts@), separator@),
{
    let ghost all = text::views(parts@);
    if parts.len() == 0 {
        return String::new();
    }
    let mut out: String = parts[0].clone();
    let mut i: usize = 1;
    assert(all.take(1)[0] == parts@[0]@);
    while i < parts.len()
        invariant
            1 <= i <= parts@.len(),
            all == text::views(parts@),
            out@ == joined(all.take(i as int), separator@),
        decreases parts@.len() - i,
    {
        proof {
            assert(all.take(i + 1).drop_last() =~= all.take(i as int));
            assert(all.take(i + 1).last() == all[i as int]);
        }
        out.append(separator);
        out.append(parts[i].as_str());
        i = i + 1;
    }
    assert(all.take(i as int) =~= all);
    out
}

} // verus!
