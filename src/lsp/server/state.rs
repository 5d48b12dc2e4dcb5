//! The state of an initialized session, and the server's copy of each open
//! document.

use crate::lsp::capabilities::ClientCapabilities;
use crate::lsp::common::text_document::{Range, TextDocumentItemOwned};
use crate::lsp::notification::trace::TraceValue;
use crate::lsp::server::logger::LogEvent;
use crate::lsp::error::EditError;
use crate::lsp::server::edit::{
    apply_change, apply_changes, compute_line_starts, line_starts, same_offsets, splice,
};
use vstd::prelude::*;

verus! {

/// The state of a session between `initialize` and `shutdown`.
pub struct InitializedServerState {
    /// What the client announced in `initialize`.
    pub _client_capabilities: ClientCapabilities,
    /// The client has acknowledged the response to `initialize`.
    pub is_client_initialized: bool,
    /// The trace level that the client last asked for.
    pub trace: TraceValue,
    /// Log events not yet handed to the log worker, oldest first.
    pub log_events: Vec<LogEvent>,
    /// The open documents.
    pub documents: Vec<LineSeperatedDocument>,
}

/// An open document together with the table of where each of its lines
/// starts. The table is rebuilt whenever the text changes, so it always
/// describes the current text.
pub struct LineSeperatedDocument {
    full_document: TextDocumentItemOwned,
    line_starts: Vec<usize>,
    char_count: usize,
}

impl View for LineSeperatedDocument {
    /// URI, language identifier, version and text.
    type V = (Seq<char>, Seq<char>, i32, Seq<char>);

    closed spec fn view(&self) -> (Seq<char>, Seq<char>, i32, Seq<char>) {
        self.full_document@
    }
}

/// The range edits `diff` as changes.
pub open spec fn diff_changes(diff: Seq<(Range, &str)>) -> Seq<(Option<Range>, Seq<char>)> {
    diff.map_values(|d: (Range, &str)| (Some(d.0), d.1@))
}

/// The changes `changes` with their texts viewed.
pub open spec fn change_views(changes: Seq<(Option<Range>, &str)>) -> Seq<
    (Option<Range>, Seq<char>),
> {
    changes.map_values(|c: (Option<Range>, &str)| (c.0, c.1@))
}

impl LineSeperatedDocument {
    #[verifier::type_invariant]
    spec fn table_matches_text(&self) -> bool {
        &&& self.char_count == self.full_document.text@.len()
        &&& same_offsets(self.line_starts@, line_starts(self.full_document.text@))
    }

    /// Indexes the lines of `document`.
    pub fn new(document: TextDocumentItemOwned) -> (r: Self)
        ensures
            r@ == document@,
    {
        let (line_starts, char_count) = compute_line_starts(document.text.as_str());
        LineSeperatedDocument { full_document: document, line_starts, char_count }
    }

    /// The document, without its line table.
    pub fn into_full_document(self) -> (r: TextDocumentItemOwned)
        ensures
            r@ == self@,
    {
        self.full_document
    }

    pub fn borrow_full_document(&self) -> (r: &TextDocumentItemOwned)
        ensures
            r@ == self@,
    {
        &self.full_document
    }

    /// The text after the range edits `diff`, applied in order, each to the
    /// text that the previous ones left; or the error of the first that does
    /// not fit. The document itself is not changed.
    pub fn apply_diff_to_document(&self, diff: &[(Range, &str)]) -> (r: Result<String, EditError>)
        ensures
            match (r, apply_changes(self@.3, diff_changes(diff@))) {
                (Ok(s), Ok(t)) => s@ == t,
                (Err(e), Err(f)) => e == f,
                _ => false,
            },
    {
        let mut changes: Vec<(Option<Range>, &str)> = Vec::new();
        let mut i: usize = 0;
        while i < diff.len()
            invariant
                i <= diff@.len(),
                changes@.len() == i,
                change_views(changes@) == diff_changes(diff@).take(i as int),
            decreases diff@.len() - i,
        {
            let (range, text) = diff[i];
            let ghost before = changes@;
            changes.push((Some(range), text));
            proof {
                assert(changes@ == before.push((Some(range), text)));
                assert(diff@[i as int] == (range, text));
                assert forall|j: int| 0 <= j <= i implies #[trigger] change_views(changes@)[j]
                    == diff_changes(diff@).take(i + 1)[j] by {
                    if j < i {
                        assert(change_views(changes@)[j] == change_views(before)[j]);
                        assert(change_views(before)[j] == diff_changes(diff@).take(i as int)[j]);
                    }
                }
                assert(change_views(changes@) =~= diff_changes(diff@).take(i + 1));
            }
            i = i + 1;
        }
        assert(diff_changes(diff@).take(diff@.len() as int) =~= diff_changes(diff@));
        self.apply_changes(&changes)
    }

    /// The text after `changes`, applied in order; see
    /// [`apply_changes`](crate::lsp::server::edit::apply_changes).
    pub fn apply_changes(&self, changes: &[(Option<Range>, &str)]) -> (r: Result<String, EditError>)
        ensures
            match (r, apply_changes(self@.3, change_views(changes@))) {
                (Ok(s), Ok(t)) => s@ == t,
                (Err(e), Err(f)) => e == f,
                _ => false,
            },
    {
        proof {
            use_type_invariant(self);
        }
        let mut text = self.full_document.text.clone();
        let mut starts = self.line_starts.clone();
        let mut count = self.char_count;
        let mut i: usize = 0;
        assert(change_views(changes@).take(0) =~= Seq::<(Option<Range>, Seq<char>)>::empty());
        while i < changes.len()
            invariant
                i <= changes@.len(),
                count == text@.len(),
                same_offsets(starts@, line_starts(text@)),
                apply_changes(self@.3, change_views(changes@).take(i as int)) == Ok::<
                    Seq<char>,
                    EditError,
                >(text@),
            decreases changes@.len() - i,
        {
            let (range, repl) = changes[i];
            proof {
                let cs = change_views(changes@).take(i + 1);
                assert(cs.drop_last() =~= change_views(changes@).take(i as int));
                assert(cs.last() == (range, repl@));
            }
            let next = match range {
                None => repl.to_owned(),
                Some(r) => match splice(text.as_str(), count, &starts, r, repl) {
                    Ok(s) => s,
                    Err(e) => {
                        proof {
                            lemma_changes_stop(self@.3, change_views(changes@), i as int);
                        }
                        return Err(e);
                    },
                },
            };
            let (new_starts, new_count) = compute_line_starts(next.as_str());
            text = next;
            starts = new_starts;
            count = new_count;
            i = i + 1;
        }
        assert(change_views(changes@).take(changes@.len() as int) =~= change_views(changes@));
        Ok(text)
    }
}

/// Once a change fails, the whole sequence fails with its error.
proof fn lemma_changes_stop(t: Seq<char>, changes: Seq<(Option<Range>, Seq<char>)>, i: int)
    requires
        0 <= i < changes.len(),
        apply_changes(t, changes.take(i)) is Ok,
        apply_change(apply_changes(t, changes.take(i))->Ok_0, changes[i]) is Err,
    ensures
        apply_changes(t, changes) == apply_changes(t, changes.take(i + 1)),
        apply_changes(t, changes) is Err,
    decreases changes.len() - i,
{
    assert(changes.take(i + 1).drop_last() =~= changes.take(i));
    if i + 1 < changes.len() {
        assert(changes.drop_last().take(i) =~= changes.take(i));
        assert(changes.drop_last().take(i + 1) =~= changes.take(i + 1));
        assert(changes.drop_last()[i] == changes[i]);
        lemma_changes_stop(t, changes.drop_last(), i);
    } else {
        assert(changes.take(i + 1) =~= changes);
    }
}

} // verus!
