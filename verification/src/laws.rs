//! What holds of every document that the emitter writes.

use vstd::prelude::*;
use crate::decimal::decimal;
use crate::event::{Align, DocEventView, RegionView};
use crate::footnote::{
    first_index, footnote_number, lemma_first_index, lemma_first_index_bounds,
    lemma_register_stable, register,
};
use crate::latex::{
    body, emitted, end_state, end_text, ends_with_newline, latex_document, lemma_concat,
    lemma_single, line_break_unless, next_state, preamble, register_references, start_state,
    start_text, state_after, trailer, EmitterState,
};

verus! {

/// Every document begins with the preamble and ends with the trailer,
/// whatever its events are.
pub proof fn lemma_document_framed(events: Seq<DocEventView>)
    ensures
        preamble().is_prefix_of(latex_document(events)),
        trailer().is_suffix_of(latex_document(events)),
{
    let doc = latex_document(events);
    assert(doc.subrange(0, preamble().len() as int) =~= preamble());
    assert(doc.subrange(doc.len() - trailer().len(), doc.len() as int) =~= trailer());
}

/// Whether every state on the way through `events`, from `st` on, lies
/// inside the alternative text of an image.
pub open spec fn stays_discarding(st: EmitterState, events: Seq<DocEventView>) -> bool {
    forall|k: int| 0 <= k <= events.len() ==> (#[trigger] state_after(st, events.take(k))).discarding is Some
}

/// Inside the alternative text of an image no event adds to the output,
/// and nothing of the state changes but the nesting depth and the footnote
/// names: each footnote reference there is registered, and so takes its number.
pub proof fn lemma_alt_text_dropped(st: EmitterState, events: Seq<DocEventView>)
    requires
        stays_discarding(st, events),
    ensures
        body(st, events) == Seq::<char>::empty(),
        state_after(st, events) == (EmitterState {
            footnotes: register_references(st.footnotes, events),
            discarding: state_after(st, events).discarding,
            ..st
        }),
    decreases events.len(),
{
    if events.len() == 0 {
        assert(events.take(0) =~= events);
    } else {
        let earlier = events.drop_last();
        assert forall|k: int| 0 <= k <= earlier.len() implies (#[trigger] state_after(
            st,
            earlier.take(k),
        )).discarding is Some by {
            assert(earlier.take(k) =~= events.take(k));
        }
        lemma_alt_text_dropped(st, earlier);
        assert(events.take(earlier.len() as int) =~= earlier);
        assert(events.take(events.len() as int) =~= events);
        assert(body(st, events) =~= Seq::<char>::empty());
    }
}

/// An image contributes its own line and nothing of what lies inside it.
pub proof fn lemma_image_alone(st: EmitterState, dest: Seq<char>, inner: Seq<DocEventView>)
    requires
        st.discarding is None,
        stays_discarding(next_state(st, DocEventView::Start(RegionView::Image(dest))), inner),
    ensures
        body(st, seq![DocEventView::Start(RegionView::Image(dest))] + inner) == emitted(
            st,
            DocEventView::Start(RegionView::Image(dest)),
        ),
        state_after(st, seq![DocEventView::Start(RegionView::Image(dest))] + inner).footnotes
            == register_references(st.footnotes, inner),
{
    let open = DocEventView::Start(RegionView::Image(dest));
    lemma_single(st, open);
    lemma_concat(st, seq![open], inner);
    lemma_alt_text_dropped(next_state(st, open), inner);
    assert(emitted(st, open) + Seq::<char>::empty() =~= emitted(st, open));
}

/// An image whose alternative text closes every region that it opens ends
/// with the end of the image: what follows is written as before the image,
/// but for the footnote names and the newline that the image leaves.
pub proof fn lemma_image_closed(
    st: EmitterState,
    dest: Seq<char>,
    inner: Seq<DocEventView>,
    close: RegionView,
)
    requires
        st.discarding is None,
        stays_discarding(next_state(st, DocEventView::Start(RegionView::Image(dest))), inner),
        state_after(next_state(st, DocEventView::Start(RegionView::Image(dest))), inner).discarding
            == Some(0nat),
    ensures
        body(
            st,
            (seq![DocEventView::Start(RegionView::Image(dest))] + inner).push(
                DocEventView::End(close),
            ),
        ) == emitted(st, DocEventView::Start(RegionView::Image(dest))),
        state_after(
            st,
            (seq![DocEventView::Start(RegionView::Image(dest))] + inner).push(
                DocEventView::End(close),
            ),
        ) == (EmitterState {
            end_newline: true,
            footnotes: register_references(st.footnotes, inner),
            ..st
        }),
{
    let open = DocEventView::Start(RegionView::Image(dest));
    let upto = seq![open] + inner;
    let all = upto.push(DocEventView::End(close));
    lemma_image_alone(st, dest, inner);
    lemma_single(st, open);
    lemma_concat(st, seq![open], inner);
    lemma_alt_text_dropped(next_state(st, open), inner);
    assert(all.drop_last() =~= upto);
    assert(emitted(st, open) + Seq::<char>::empty() =~= emitted(st, open));
}

/// Whether `ev` is a reference to the footnote `name` or the start of its
/// definition.
pub open spec fn names_footnote(ev: DocEventView, name: Seq<char>) -> bool {
    ev == DocEventView::FootnoteReference(name) || ev == DocEventView::Start(
        RegionView::FootnoteDefinition(name),
    )
}

/// One step adds at most one name to the footnote names, at their end.
pub proof fn lemma_step_keeps_names(st: EmitterState, ev: DocEventView)
    ensures
        st.footnotes.is_prefix_of(next_state(st, ev).footnotes),
        st.footnotes.no_duplicates() ==> next_state(st, ev).footnotes.no_duplicates(),
        forall|name: Seq<char>|
            st.discarding is None && names_footnote(ev, name) ==> next_state(
                st,
                ev,
            ).footnotes.contains(name) && footnote_number(next_state(st, ev).footnotes, name)
                == footnote_number(st.footnotes, name),
{
    let after = next_state(st, ev).footnotes;
    assert forall|name: Seq<char>| after == register(st.footnotes, name) implies {
        &&& st.footnotes.is_prefix_of(after)
        &&& st.footnotes.no_duplicates() ==> after.no_duplicates()
        &&& after.contains(name)
        &&& footnote_number(after, name) == footnote_number(st.footnotes, name)
    } by {
        lemma_register_stable(st.footnotes, name, name);
        if st.footnotes.contains(name) {
        } else {
            assert(after[st.footnotes.len() as int] == name);
        }
    }
    match ev {
        DocEventView::FootnoteReference(name) => {
            assert(after == register(st.footnotes, name));
        },
        DocEventView::Start(RegionView::FootnoteDefinition(name)) => {
            if st.discarding is None {
                assert(after == register(st.footnotes, name));
            }
        },
        _ => {},
    }
}

/// The footnote names are kept in the order of their first appearance: what
/// has been seen stays where it is, and no name stands twice.
pub proof fn lemma_names_grow(st: EmitterState, events: Seq<DocEventView>)
    ensures
        st.footnotes.is_prefix_of(state_after(st, events).footnotes),
        st.footnotes.no_duplicates() ==> state_after(st, events).footnotes.no_duplicates(),
    decreases events.len(),
{
    if events.len() > 0 {
        lemma_names_grow(st, events.drop_last());
        lemma_step_keeps_names(state_after(st, events.drop_last()), events.last());
    }
}

/// A name that has its number keeps it, whatever follows.
pub proof fn lemma_number_stable(st: EmitterState, events: Seq<DocEventView>, name: Seq<char>)
    requires
        st.footnotes.contains(name),
    ensures
        state_after(st, events).footnotes.contains(name),
        footnote_number(state_after(st, events).footnotes, name) == footnote_number(
            st.footnotes,
            name,
        ),
{
    lemma_names_grow(st, events);
    let before = st.footnotes;
    let after = state_after(st, events).footnotes;
    lemma_first_index_bounds(before, name);
    let k = first_index(before, name);
    assert(after[k as int] == before[k as int]);
    assert forall|j: int| 0 <= j < k implies after[j] != name by {
        assert(after[j] == before[j]);
    }
    lemma_first_index(after, name, k);
}

/// Two footnote events of one name, both outside the alternative text of an
/// image, are given the same number: the second finds the number that the
/// first was written with.
pub proof fn lemma_same_name_same_number(
    st: EmitterState,
    events: Seq<DocEventView>,
    i: int,
    j: int,
    name: Seq<char>,
)
    requires
        0 <= i < j < events.len(),
        names_footnote(events[i], name),
        names_footnote(events[j], name),
        state_after(st, events.take(i)).discarding is None,
    ensures
        footnote_number(state_after(st, events.take(j)).footnotes, name) == footnote_number(
            state_after(st, events.take(i)).footnotes,
            name,
        ),
{
    let at_first = state_after(st, events.take(i));
    let first = events.take(i + 1);
    assert(first.drop_last() =~= events.take(i));
    assert(first.last() == events[i]);
    lemma_step_keeps_names(at_first, events[i]);
    let between = events.subrange(i + 1, j);
    assert(events.take(j) =~= first + between);
    lemma_concat(st, first, between);
    lemma_number_stable(state_after(st, first), between, name);
}

/// The numbers follow the order of first appearance and start at one: among
/// names of which none stands twice, the name at index `k` has the number
/// `k + 1`, and a name not yet seen is given the next number.
pub proof fn lemma_numbers_in_order(names: Seq<Seq<char>>, name: Seq<char>)
    requires
        names.no_duplicates(),
    ensures
        forall|k: int| 0 <= k < names.len() ==> footnote_number(names, #[trigger] names[k]) == k + 1,
        !names.contains(name) ==> footnote_number(names, name) == names.len() + 1,
{
    assert forall|k: int| 0 <= k < names.len() implies footnote_number(names, #[trigger] names[k])
        == k + 1 by {
        lemma_first_index(names, names[k], k as nat);
    }
    lemma_first_index_bounds(names, name);
}

/// In a whole document no footnote name stands twice among the names seen,
/// so that its numbers count the names from one in the order of their first
/// appearance.
pub proof fn lemma_document_numbers(events: Seq<DocEventView>)
    ensures
        state_after(EmitterState::initial(), events).footnotes.no_duplicates(),
        forall|k: int|
            #![trigger state_after(EmitterState::initial(), events).footnotes[k]]
            0 <= k < state_after(EmitterState::initial(), events).footnotes.len()
                ==> footnote_number(
                state_after(EmitterState::initial(), events).footnotes,
                state_after(EmitterState::initial(), events).footnotes[k],
            ) == k + 1,
{
    lemma_names_grow(EmitterState::initial(), events);
    let names = state_after(EmitterState::initial(), events).footnotes;
    lemma_numbers_in_order(names, Seq::empty());
}

/// Whether `ev` opens a table, a table head or a table row.
pub open spec fn opens_table_part(ev: DocEventView) -> bool {
    ev matches DocEventView::Start(tag) && (tag is Table || tag is TableHead || tag is TableRow)
}

/// Whether none of `events`, met from `st` on, opens a table, a head or a
/// row outside the alternative text of an image: the events lie inside one
/// table row.
pub open spec fn within_row(st: EmitterState, events: Seq<DocEventView>) -> bool {
    forall|k: int|
        0 <= k < events.len() && (#[trigger] state_after(st, events.take(k))).discarding is None
            ==> !opens_table_part(events[k])
}

/// What is written at the end of each table cell among `events`, met from
/// `st` on, in turn.
pub open spec fn cell_closings(st: EmitterState, events: Seq<DocEventView>) -> Seq<Seq<char>>
    decreases events.len(),
{
    if events.len() == 0 {
        Seq::empty()
    } else {
        let earlier = cell_closings(st, events.drop_last());
        let before = state_after(st, events.drop_last());
        if before.discarding is None && events.last() == DocEventView::End(RegionView::TableCell) {
            earlier.push(emitted(before, events.last()))
        } else {
            earlier
        }
    }
}

/// Inside a row the column count stands, the cell index counts the cells
/// closed, and a cell is closed by the row terminator where it fills the
/// last column, by a separator elsewhere.
pub proof fn lemma_cell_closings(st: EmitterState, events: Seq<DocEventView>)
    requires
        within_row(st, events),
    ensures
        state_after(st, events).table_cells == st.table_cells,
        state_after(st, events).table_cell_index == st.table_cell_index + cell_closings(
            st,
            events,
        ).len(),
        forall|k: int|
            0 <= k < cell_closings(st, events).len() ==> #[trigger] cell_closings(st, events)[k]
                == if st.table_cell_index + k + 1 == st.table_cells {
                "\\\\\n"@
            } else {
                " & "@
            },
    decreases events.len(),
{
    if events.len() > 0 {
        let earlier = events.drop_last();
        assert forall|k: int|
            0 <= k < earlier.len() && (#[trigger] state_after(
                st,
                earlier.take(k),
            )).discarding is None implies !opens_table_part(earlier[k]) by {
            assert(earlier.take(k) =~= events.take(k));
        }
        lemma_cell_closings(st, earlier);
        assert(events.take(earlier.len() as int) =~= earlier);
    }
}

/// Whether none of `events`, met from `st` on, opens a table outside the
/// alternative text of an image: the events lie inside one table.
pub open spec fn within_table(st: EmitterState, events: Seq<DocEventView>) -> bool {
    forall|k: int|
        0 <= k < events.len() && (#[trigger] state_after(st, events.take(k))).discarding is None
            ==> !(events[k] matches DocEventView::Start(tag) && tag is Table)
}

/// Inside a table the column count is the number of columns that the table
/// declared.
pub proof fn lemma_table_columns(
    st: EmitterState,
    alignments: Seq<Align>,
    events: Seq<DocEventView>,
)
    requires
        st.discarding is None,
        within_table(next_state(st, DocEventView::Start(RegionView::Table(alignments))), events),
    ensures
        state_after(
            next_state(st, DocEventView::Start(RegionView::Table(alignments))),
            events,
        ).table_cells == alignments.len(),
    decreases events.len(),
{
    let opened = next_state(st, DocEventView::Start(RegionView::Table(alignments)));
    if events.len() > 0 {
        let earlier = events.drop_last();
        assert forall|k: int|
            0 <= k < earlier.len() && (#[trigger] state_after(
                opened,
                earlier.take(k),
            )).discarding is None implies !(earlier[k] matches DocEventView::Start(tag)
            && tag is Table) by {
            assert(earlier.take(k) =~= events.take(k));
        }
        lemma_table_columns(st, alignments, earlier);
        assert(events.take(earlier.len() as int) =~= earlier);
    }
}

/// A row of a table with `columns` columns, in which `columns` cells are
/// closed, writes `columns - 1` separators and then one row terminator, and
/// the cell index ends at the column count. `opening` opens the row, or the
/// head of the table, and `cells` are the events of the row.
pub proof fn lemma_table_row(
    st: EmitterState,
    opening: DocEventView,
    cells: Seq<DocEventView>,
    columns: nat,
)
    requires
        st.discarding is None,
        columns >= 1,
        st.table_cells == columns,
        opening == DocEventView::Start(RegionView::TableRow) || opening == DocEventView::Start(
            RegionView::TableHead,
        ),
        within_row(next_state(st, opening), cells),
        cell_closings(next_state(st, opening), cells).len() == columns,
    ensures
        emitted(st, opening) == Seq::<char>::empty(),
        forall|k: int|
            0 <= k < columns - 1 ==> #[trigger] cell_closings(next_state(st, opening), cells)[k]
                == " & "@,
        cell_closings(next_state(st, opening), cells)[columns - 1] == "\\\\\n"@,
        state_after(next_state(st, opening), cells).table_cell_index == columns,
        state_after(next_state(st, opening), cells).table_cells == columns,
{
    lemma_cell_closings(next_state(st, opening), cells);
}

/// Whether `needle` stands somewhere in `text`.
pub open spec fn occurs_in(needle: Seq<char>, text: Seq<char>) -> bool {
    exists|at: int|
        0 <= at && at + needle.len() <= text.len() && #[trigger] text.subrange(
            at,
            at + needle.len(),
        ) == needle
}

/// An ordered list that starts at one sets no counter; one that starts
/// elsewhere sets the counter to its start, in what opening the list writes,
/// hence before its first item.
pub proof fn lemma_list_counter(st: EmitterState, first: u64)
    requires
        st.discarding is None,
    ensures
        emitted(st, DocEventView::Start(RegionView::List(Some(first)))) == if first == 1 {
            line_break_unless(st.end_newline) + "\\begin{enumerate}\n"@
        } else {
            line_break_unless(st.end_newline) + ("\\begin{enumerate}\n"@ + "\\setcounter{enumi}{"@
                + decimal(first as nat) + "}\n"@)
        },
        next_state(st, DocEventView::Start(RegionView::List(Some(first)))) == (EmitterState {
            end_newline: true,
            ..st
        }),
        first == 1 ==> !occurs_in(
            "\\setcounter"@,
            emitted(st, DocEventView::Start(RegionView::List(Some(first)))),
        ),
        first != 1 ==> occurs_in(
            "\\setcounter{enumi}{"@ + decimal(first as nat) + "}"@,
            emitted(st, DocEventView::Start(RegionView::List(Some(first)))),
        ),
{
    let text = emitted(st, DocEventView::Start(RegionView::List(Some(first))));
    let lead = line_break_unless(st.end_newline);
    reveal_strlit("\n");
    reveal_strlit("}\n");
    reveal_strlit("}");
    reveal_strlit("\\begin{enumerate}\n");
    reveal_strlit("\\setcounter");
    if first == 1 {
        let needle = "\\setcounter"@;
        assert(text =~= lead + "\\begin{enumerate}\n"@);
        assert forall|at: int|
            0 <= at && at + needle.len() <= text.len() implies #[trigger] text.subrange(
            at,
            at + needle.len(),
        ) != needle by {
            let part = text.subrange(at, at + needle.len());
            assert(part[1] == text[at + 1]);
            assert(needle[1] == 's');
            assert(part[0] == text[at]);
            assert(needle[0] == '\\');
        }
    } else {
        let counter = "\\setcounter{enumi}{"@ + decimal(first as nat);
        let needle = counter + "}"@;
        let at = (lead.len() + "\\begin{enumerate}\n"@.len()) as int;
        assert(text =~= lead + "\\begin{enumerate}\n"@ + counter + "}\n"@);
        assert(text =~= lead + ("\\begin{enumerate}\n"@ + "\\setcounter{enumi}{"@ + decimal(
            first as nat,
        ) + "}\n"@));
        assert(text.subrange(at, at + needle.len()) =~= needle);
    }
}

/// While no more cells are closed in a row than the table has columns, the
/// cell index does not exceed the column count at any point of the row.
pub proof fn lemma_cell_index_bounded(st: EmitterState, row: Seq<DocEventView>, upto: int)
    requires
        st.table_cell_index == 0,
        within_row(st, row),
        cell_closings(st, row).len() <= st.table_cells,
        0 <= upto <= row.len(),
    ensures
        state_after(st, row.take(upto)).table_cell_index <= state_after(
            st,
            row.take(upto),
        ).table_cells,
{
    let part = row.take(upto);
    assert forall|k: int|
        0 <= k < part.len() && (#[trigger] state_after(
            st,
            part.take(k),
        )).discarding is None implies !opens_table_part(part[k]) by {
        assert(part.take(k) =~= row.take(k));
    }
    lemma_cell_closings(st, part);
    lemma_closings_grow(st, row, upto);
}

/// The cells closed in the first events of a row are among those closed in
/// the whole row.
proof fn lemma_closings_grow(st: EmitterState, events: Seq<DocEventView>, upto: int)
    requires
        0 <= upto <= events.len(),
    ensures
        cell_closings(st, events.take(upto)).len() <= cell_closings(st, events).len(),
    decreases events.len(),
{
    if upto == events.len() {
        assert(events.take(upto) =~= events);
    } else {
        assert(events.drop_last().take(upto) =~= events.take(upto));
        lemma_closings_grow(st, events.drop_last(), upto);
    }
}

/// The newline flag follows the output: after an event that writes
/// something outside the alternative text of an image, the flag is set
/// exactly when what was written ends in a newline.
pub proof fn lemma_end_newline(st: EmitterState, ev: DocEventView)
    requires
        st.discarding is None,
    ensures
        emitted(st, ev).len() > 0 ==> next_state(st, ev).end_newline == ends_with_newline(
            emitted(st, ev),
        ),
{
    reveal_strlit("\n");
    match ev {
        DocEventView::Start(tag) => lemma_end_newline_start(st, tag),
        DocEventView::End(tag) => lemma_end_newline_end(st, tag),
        DocEventView::Code(_) => {
            reveal_strlit("}");
        },
        DocEventView::InlineMath(_) => {
            reveal_strlit("$");
        },
        DocEventView::DisplayMath(_) => {
            reveal_strlit("\\end{align*}");
        },
        DocEventView::Html(_) => {
            reveal_strlit("\\end{verbatim}");
        },
        DocEventView::Rule => {
            reveal_strlit("\\hline\n");
        },
        DocEventView::FootnoteReference(_) => {
            reveal_strlit("]");
        },
        DocEventView::TaskListMarker(_) => {
            reveal_strlit(
                "\\makebox[0pt][l]{$\\square$}\\raisebox{.15ex}{\\hspace{0.1em}$\\checkmark$}\\n",
            );
            reveal_strlit("\\makebox[0pt][l]{$\\square$}\\n");
        },
        _ => {},
    }
}

/// The newline flag after the start of a region.
proof fn lemma_end_newline_start(st: EmitterState, tag: RegionView)
    requires
        st.discarding is None,
    ensures
        start_text(st, tag).len() > 0 ==> start_state(st, tag).end_newline == ends_with_newline(
            start_text(st, tag),
        ),
{
    reveal_strlit("\n");
    reveal_strlit("}\n");
    match tag {
        RegionView::Paragraph => {
            reveal_strlit("\n\n");
        },
        RegionView::Heading(_) => {
            reveal_strlit("{");
        },
        RegionView::BlockQuote => {
            reveal_strlit("\\begin{quotation}\n");
        },
        RegionView::CodeBlock(_) => {
            reveal_strlit("\\begin{minted}{text}\n");
        },
        RegionView::List(_) => {
            reveal_strlit("\\begin{itemize}\n");
            reveal_strlit("\\begin{enumerate}\n");
        },
        RegionView::Item => {
            reveal_strlit("\\item ");
        },
        RegionView::Emphasis => {
            reveal_strlit("{\\em ");
        },
        RegionView::Strong => {
            reveal_strlit("{\\bf ");
        },
        RegionView::Strikethrough => {
            reveal_strlit("\\sout{");
        },
        RegionView::Link(_, _) => {
            reveal_strlit("}{");
        },
        RegionView::FootnoteDefinition(_) => {
            reveal_strlit("]{");
        },
        RegionView::HtmlBlock => {
            reveal_strlit("\\begin{verbatim}\n");
        },
        RegionView::MetadataBlock => {
            reveal_strlit("\\begin{comment}\n");
        },
        _ => {},
    }
}

/// The newline flag after the end of a region.
proof fn lemma_end_newline_end(st: EmitterState, tag: RegionView)
    requires
        st.discarding is None,
    ensures
        end_text(st, tag).len() > 0 ==> end_state(st, tag).end_newline == ends_with_newline(
            end_text(st, tag),
        ),
{
    reveal_strlit("\n");
    reveal_strlit("}\n");
    reveal_strlit("}");
    reveal_strlit("\\end{tabular}\n\\end{center}\n");
    reveal_strlit("\\hline\n");
    reveal_strlit("\\\\\n");
    reveal_strlit(" & ");
    reveal_strlit("\\end{quotation}\n");
    reveal_strlit("\\end{minted}\n");
    reveal_strlit("\\end{enumerate}\n");
    reveal_strlit("\\end{itemize}\n");
    reveal_strlit("\\end{verbatim}\n");
    reveal_strlit("\\end{comment}\n");
}

/// A footnote event outside the alternative text of an image, be it a
/// reference or the start of a definition, is written with the number of its
/// name: the number that the name has, or the next number where the name is
/// new. The name then has that number, every other name keeps its own, and
/// still no name stands twice.
pub proof fn lemma_footnote_event(st: EmitterState, name: Seq<char>, other: Seq<char>)
    requires
        st.discarding is None,
    ensures
        emitted(st, DocEventView::FootnoteReference(name)) == "\\footnotemark["@ + decimal(
            footnote_number(st.footnotes, name),
        ) + "]"@,
        emitted(st, DocEventView::Start(RegionView::FootnoteDefinition(name))) == line_break_unless(
            st.end_newline,
        ) + "\\footnotetext["@ + decimal(footnote_number(st.footnotes, name)) + "]{"@,
        next_state(st, DocEventView::FootnoteReference(name)) == (EmitterState {
            end_newline: false,
            footnotes: register(st.footnotes, name),
            ..st
        }),
        next_state(st, DocEventView::Start(RegionView::FootnoteDefinition(name)))
            == next_state(st, DocEventView::FootnoteReference(name)),
        !st.footnotes.contains(name) ==> footnote_number(st.footnotes, name) == st.footnotes.len()
            + 1,
        footnote_number(register(st.footnotes, name), name) == footnote_number(st.footnotes, name),
        st.footnotes.contains(other) ==> footnote_number(register(st.footnotes, name), other)
            == footnote_number(st.footnotes, other),
        st.footnotes.no_duplicates() ==> register(st.footnotes, name).no_duplicates(),
        register(st.footnotes, name).len() == if st.footnotes.contains(name) {
            st.footnotes.len()
        } else {
            st.footnotes.len() + 1
        },
{
    lemma_register_stable(st.footnotes, name, other);
    lemma_first_index_bounds(st.footnotes, name);
    lemma_step_keeps_names(st, DocEventView::FootnoteReference(name));
}

/// The end of a table cell outside the alternative text of an image counts
/// the cell, and writes the row terminator where the count reaches the
/// number of columns, a separator where it does not. Nothing else of the
/// state changes but the newline flag.
pub proof fn lemma_cell_end(st: EmitterState)
    requires
        st.discarding is None,
    ensures
        emitted(st, DocEventView::End(RegionView::TableCell)) == if st.table_cell_index + 1
            == st.table_cells {
            "\\\\\n"@
        } else {
            " & "@
        },
        next_state(st, DocEventView::End(RegionView::TableCell)) == (EmitterState {
            end_newline: st.table_cell_index + 1 == st.table_cells,
            table_cell_index: st.table_cell_index + 1,
            ..st
        }),
        next_state(st, DocEventView::Start(RegionView::TableRow)).table_cell_index == 0,
        next_state(st, DocEventView::Start(RegionView::TableHead)).table_cell_index == 0,
{
}

/// The events of a table cell that holds the text `text` and no more.
pub open spec fn text_cell(text: Seq<char>) -> Seq<DocEventView> {
    seq![
        DocEventView::Start(RegionView::TableCell),
        DocEventView::Text(text),
        DocEventView::End(RegionView::TableCell),
    ]
}

/// The events of the cells that hold the texts `texts`, in turn.
pub open spec fn text_cells(texts: Seq<Seq<char>>) -> Seq<DocEventView>
    decreases texts.len(),
{
    if texts.len() == 0 {
        Seq::empty()
    } else {
        text_cells(texts.drop_last()) + text_cell(texts.last())
    }
}

/// The texts `texts` as the cells of a row of `columns` columns: a
/// separator follows each text, but the text that fills the last column,
/// which the row terminator follows.
pub open spec fn row_text(texts: Seq<Seq<char>>, columns: nat) -> Seq<char>
    decreases texts.len(),
{
    if texts.len() == 0 {
        Seq::empty()
    } else {
        row_text(texts.drop_last(), columns) + texts.last() + if texts.len() == columns {
            "\\\\\n"@
        } else {
            " & "@
        }
    }
}

/// One cell of text is written as its text and what closes the cell.
proof fn lemma_text_cell(st: EmitterState, text: Seq<char>)
    requires
        st.discarding is None,
    ensures
        body(st, text_cell(text)) == text + if st.table_cell_index + 1 == st.table_cells {
            "\\\\\n"@
        } else {
            " & "@
        },
        state_after(st, text_cell(text)) == (EmitterState {
            end_newline: st.table_cell_index + 1 == st.table_cells,
            table_cell_index: st.table_cell_index + 1,
            ..st
        }),
{
    let open = DocEventView::Start(RegionView::TableCell);
    let inner = DocEventView::Text(text);
    let close = DocEventView::End(RegionView::TableCell);
    let s1 = next_state(st, open);
    let s2 = next_state(s1, inner);
    lemma_single(st, open);
    lemma_single(s1, inner);
    lemma_single(s2, close);
    lemma_concat(st, seq![open], seq![inner]);
    lemma_concat(st, seq![open] + seq![inner], seq![close]);
    assert(text_cell(text) =~= seq![open] + seq![inner] + seq![close]);
    assert(body(st, text_cell(text)) =~= text + emitted(s2, close));
}

/// A row whose cells hold text alone is written as the texts of its cells,
/// with a separator after each but the one that fills the last column,
/// which the row terminator follows: for as many cells as the table has
/// columns, `columns - 1` separators and one terminator at the end.
pub proof fn lemma_row_text(st: EmitterState, texts: Seq<Seq<char>>)
    requires
        st.discarding is None,
        st.table_cell_index == 0,
    ensures
        body(st, text_cells(texts)) == row_text(texts, st.table_cells),
        state_after(st, text_cells(texts)).table_cell_index == texts.len(),
        state_after(st, text_cells(texts)).table_cells == st.table_cells,
        state_after(st, text_cells(texts)).discarding is None,
    decreases texts.len(),
{
    if texts.len() > 0 {
        let earlier = texts.drop_last();
        lemma_row_text(st, earlier);
        let mid = state_after(st, text_cells(earlier));
        lemma_text_cell(mid, texts.last());
        lemma_concat(st, text_cells(earlier), text_cell(texts.last()));
        assert(body(st, text_cells(texts)) =~= row_text(texts, st.table_cells));
    }
}

} // verus!
