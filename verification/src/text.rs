//! Textual rendering of a batch, for logs and debugging: one line per
//! entry, indented under a header as the storage layer renders itself.

use core::fmt::Write;
use vstd::prelude::*;

use crate::batch::FileZSet;

verus! {

/// The rendered line of one entry, a function of its key and weight.
pub uninterp spec fn entry_line_of(k: i64, w: i64) -> Seq<char>;

/// Relies on std's `format!` over two decimal integers: the line is a
/// function of the key and weight alone.
#[verifier::external_body]
fn render_entry(k: i64, w: i64) -> (r: String)
    ensures
        r@ == entry_line_of(k, w),
{
    format!("{} -> {}", k, w)
}

/// Pieces joined with a separator between consecutive pieces.
pub open spec fn joined(parts: Seq<Seq<char>>, sep: Seq<char>) -> Seq<char>
    decreases parts.len(),
{
    if parts.len() == 0 {
        Seq::empty()
    } else if parts.len() == 1 {
        parts[0]
    } else {
        parts[0] + sep + joined(parts.skip(1), sep)
    }
}

/// Relies on std's `[String]::join`: concatenates the pieces with the
/// separator between consecutive pieces.
#[verifier::external_body]
fn join_strings(parts: &Vec<String>, sep: &str) -> (r: String)
    ensures
        r@ == joined(parts@.map_values(|p: String| p@), sep@),
{
    parts.join(sep)
}

/// The indented rendering of a block of text, a function of the text and
/// prefix alone.
pub uninterp spec fn indented_of(s: Seq<char>, prefix: Seq<char>) -> Seq<char>;

/// Relies on textwrap's `indent`: prepends the prefix to every non-empty
/// line of the text.
#[verifier::external_body]
fn indent_text(s: &str, prefix: &str) -> (r: String)
    ensures
        r@ == indented_of(s@, prefix@),
{
    textwrap::indent(s, prefix)
}

/// The lines of a batch's run, one per entry.
pub open spec fn display_lines(s: Seq<(i64, i64)>) -> Seq<Seq<char>> {
    Seq::new(s.len(), |i: int| entry_line_of(s[i].0, s[i].1))
}

impl FileZSet {
    /// Render the batch as its indented storage layer under a header.
    pub fn display(&self) -> (r: String)
        requires
            self.wf(),
        ensures
            r@ == joined(
                seq![
                    ("layer:\n")@,
                    indented_of(joined(display_lines(self@), ("\n")@), ("    ")@),
                    ("\n")@,
                ],
                Seq::<char>::empty(),
            ),
    {
        let n = self.layer.keys.len();
        let mut lines: Vec<String> = Vec::new();
        let mut i: usize = 0;
        while i < n
            invariant
                self.wf(),
                n == self@.len(),
                n == self.layer.keys@.len(),
                n == self.layer.diffs@.len(),
                0 <= i <= n,
                lines@.len() == i,
                forall|j: int| 0 <= j < i ==> lines@[j]@ == entry_line_of(self@[j].0, self@[j].1),
            decreases n - i,
        {
            let line = render_entry(self.layer.keys[i], self.layer.diffs[i]);
            lines.push(line);
            i = i + 1;
        }
        let body = join_strings(&lines, "\n");
        proof {
            assert(lines@.map_values(|p: String| p@) =~= display_lines(self@));
        }
        let indented = indent_text(body.as_str(), "    ");
        let mut parts: Vec<String> = Vec::new();
        parts.push("layer:\n".to_owned());
        parts.push(indented);
        parts.push("\n".to_owned());
        let r = join_strings(&parts, "");
        proof {
            assert(parts@.map_values(|p: String| p@) =~= seq![
                ("layer:\n")@,
                indented_of(joined(display_lines(self@), ("\n")@), ("    ")@),
                ("\n")@,
            ]);
            reveal_strlit("");
            assert(("")@ =~= Seq::<char>::empty());
        }
        r
    }
}

} // verus!
