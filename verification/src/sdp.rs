//! Service records left behind by an earlier run.
//!
//! The SDP daemon lists its records as blocks of lines with an empty line
//! between them. Each block names its record's handle:
//!
//! ```text
//! Service Name: Wireless Gamepad
//! Service RecHandle: 0x10005
//! ```
use vstd::prelude::*;

use crate::text::{contains_str, lines, split_str, words};

verus! {

/// Bytes read as UTF-8, with a replacement character for what is not.
pub uninterp spec fn utf8_lossy(bytes: Seq<u8>) -> Seq<char>;

/// `String::from_utf8_lossy`. Claims that the result depends on the bytes
/// alone, and that valid UTF-8 is decoded as it stands.
#[verifier::external_body]
fn from_utf8_lossy(bytes: &[u8]) -> (text: String)
    ensures
        text@ == utf8_lossy(bytes@),
        vstd::utf8::valid_utf8(bytes@) ==> text@ == vstd::utf8::decode_utf8(bytes@),
{
    String::from_utf8_lossy(bytes).into_owned()
}

/// The record handle that a line gives: its last word.
pub open spec fn handle_in(line: Seq<char>) -> Option<Seq<char>> {
    let words = crate::text::words_of(line);
    if crate::text::contains(line, "Service RecHandle"@) && words.len() > 0 {
        Some(words.last())
    } else {
        None
    }
}

/// The record handles that these lines give, in order.
pub open spec fn handles_in(lines: Seq<Seq<char>>) -> Seq<Seq<char>>
    decreases lines.len(),
{
    if lines.len() == 0 {
        Seq::empty()
    } else {
        let before = handles_in(lines.drop_last());
        match handle_in(lines.last()) {
            Some(handle) => before.push(handle),
            None => before,
        }
    }
}

/// The handles of the records in these blocks that are to be deleted. PnP
/// records are kept: the daemon adds them itself.
pub open spec fn stale_in(blocks: Seq<Seq<char>>) -> Seq<Seq<char>>
    decreases blocks.len(),
{
    if blocks.len() == 0 {
        Seq::empty()
    } else {
        let before = stale_in(blocks.drop_last());
        if crate::text::contains(blocks.last(), "PnP Information"@) {
            before
        } else {
            before + handles_in(crate::text::lines_of(blocks.last()))
        }
    }
}

/// The handles of the records in a listing that are to be deleted.
pub open spec fn stale_handles_of(listing: Seq<char>) -> Seq<Seq<char>> {
    stale_in(crate::text::split_on(listing, seq!['\n', '\n']))
}

/// Adds the handles that a block gives.
fn collect_handles(block: &str, handles: &mut Vec<String>)
    ensures
        crate::text::texts(final(handles)@) == crate::text::texts(old(handles)@) + handles_in(
            crate::text::lines_of(block@),
        ),
{
    let lines = lines(block);
    let ghost all = crate::text::lines_of(block@);
    let ghost start = crate::text::texts(handles@);
    assert(crate::text::views(lines@).len() == lines@.len());
    assert(start + Seq::<Seq<char>>::empty() =~= start);
    let mut i: usize = 0;
    while i < lines.len()
        invariant
            i <= lines@.len(),
            crate::text::views(lines@) == all,
            all.len() == lines@.len(),
            crate::text::texts(handles@) == start + handles_in(all.take(i as int)),
        decreases lines@.len() - i,
    {
        let ghost head = all.take(i + 1);
        let ghost before = crate::text::texts(handles@);
        assert(head.drop_last() =~= all.take(i as int));
        assert(all[i as int] == lines@[i as int]@);
        if contains_str(lines[i], "Service RecHandle") {
            let words = words(lines[i]);
            let ghost found = crate::text::words_of(lines@[i as int]@);
            assert(crate::text::views(words@).len() == words@.len());
            if words.len() > 0 {
                assert(found.last() == words@[words@.len() - 1]@);
                let handle = words[words.len() - 1].to_owned();
                handles.push(handle);
                assert(crate::text::texts(handles@) =~= before.push(found.last()));
                assert(before.push(found.last()) =~= start + handles_in(all.take(i as int)).push(
                    found.last(),
                ));
            }
        }
        i = i + 1;
    }
    assert(all.take(i as int) =~= all);
}

/// Picks out of a listing the handles of the records to delete.
pub fn stale_handles(listing: &str) -> (handles: Vec<String>)
    ensures
        crate::text::texts(handles@) == stale_handles_of(listing@),
{
    proof {
        reveal_strlit("\n\n");
        assert("\n\n"@ =~= seq!['\n', '\n']);
    }
    let blocks = split_str(listing, "\n\n");
    let ghost all = crate::text::split_on(listing@, seq!['\n', '\n']);
    assert(crate::text::views(blocks@).len() == blocks@.len());
    let mut handles: Vec<String> = Vec::new();
    assert(crate::text::texts(handles@) =~= Seq::empty());
    let mut i: usize = 0;
    while i < blocks.len()
        invariant
            i <= blocks@.len(),
            crate::text::views(blocks@) == all,
            all.len() == blocks@.len(),
            crate::text::texts(handles@) == stale_in(all.take(i as int)),
        decreases blocks@.len() - i,
    {
        let ghost head = all.take(i + 1);
        assert(head.drop_last() =~= all.take(i as int));
        assert(all[i as int] == blocks@[i as int]@);
        if !contains_str(blocks[i], "PnP Information") {
            collect_handles(blocks[i], &mut handles);
        }
        i = i + 1;
    }
    assert(all.take(i as int) =~= all);
    handles
}

/// The same on a listing as the daemon's tool has printed it.
pub fn stale_handles_in_output(output: &[u8]) -> (handles: Vec<String>)
    ensures
        crate::text::texts(handles@) == stale_handles_of(utf8_lossy(output@)),
        vstd::utf8::valid_utf8(output@) ==> crate::text::texts(handles@) == stale_handles_of(
            vstd::utf8::decode_utf8(output@),
        ),
{
    let listing = from_utf8_lossy(output);
    stale_handles(listing.as_str())
}

/// A PnP record is never among those to delete: a block that holds one adds
/// nothing, wherever it stands.
pub proof fn law_pnp_records_kept(before: Seq<Seq<char>>, block: Seq<char>, after: Seq<Seq<char>>)
    requires
        crate::text::contains(block, "PnP Information"@),
    ensures
        stale_in(before + seq![block] + after) == stale_in(before + after),
    decreases after.len(),
{
    if after.len() == 0 {
        assert((before + seq![block] + after).drop_last() =~= before + after);
        assert((before + seq![block] + after).last() == block);
    } else {
        let init = after.drop_last();
        law_pnp_records_kept(before, block, init);
        assert((before + seq![block] + after).drop_last() =~= before + seq![block] + init);
        assert((before + after).drop_last() =~= before + init);
        assert((before + seq![block] + after).last() == after.last());
        assert((before + after).last() == after.last());
    }
}

/// A block without `PnP Information` has all its records deleted, wherever it
/// stands: the handles found are those before it, then those that its lines give,
/// then those behind it.
pub proof fn law_all_other_records_deleted(
    before: Seq<Seq<char>>,
    block: Seq<char>,
    after: Seq<Seq<char>>,
)
    requires
        !crate::text::contains(block, "PnP Information"@),
    ensures
        stale_in(before + seq![block] + after) == stale_in(before) + handles_in(
            crate::text::lines_of(block),
        ) + stale_in(after),
    decreases after.len(),
{
    let all = before + seq![block] + after;
    let own = handles_in(crate::text::lines_of(block));
    if after.len() == 0 {
        assert(all.drop_last() =~= before);
        assert(stale_in(before) + own + stale_in(after) =~= stale_in(before) + own);
    } else {
        let init = after.drop_last();
        law_all_other_records_deleted(before, block, init);
        assert(all.drop_last() =~= before + seq![block] + init);
        assert(all.last() == after.last());
        assert(stale_in(all) =~= stale_in(before) + own + stale_in(after));
    }
}

/// Lines are read one by one, in order: a line with `Service RecHandle` in it
/// gives its last word, and any other line, or one without a word, gives nothing.
pub proof fn law_handles_line_by_line(
    before: Seq<Seq<char>>,
    line: Seq<char>,
    after: Seq<Seq<char>>,
)
    ensures
        crate::text::contains(line, "Service RecHandle"@) && crate::text::words_of(line).len() > 0
            ==> handles_in(before + seq![line] + after) == handles_in(before) + seq![
            crate::text::words_of(line)[crate::text::words_of(line).len() - 1],
        ] + handles_in(after),
        !crate::text::contains(line, "Service RecHandle"@) || crate::text::words_of(line).len() == 0
            ==> handles_in(before + seq![line] + after) == handles_in(before) + handles_in(after),
        handles_in(Seq::empty()) == Seq::<Seq<char>>::empty(),
    decreases after.len(),
{
    let all = before + seq![line] + after;
    let words = crate::text::words_of(line);
    if after.len() == 0 {
        assert(all.drop_last() =~= before);
        assert(all.last() == line);
        assert(handles_in(before) + handles_in(after) =~= handles_in(before));
        if words.len() > 0 {
            assert(handles_in(before) + seq![words.last()] + handles_in(after) =~= handles_in(
                before,
            ).push(words.last()));
        }
    } else {
        let init = after.drop_last();
        law_handles_line_by_line(before, line, init);
        assert(all.drop_last() =~= before + seq![line] + init);
        assert(all.last() == after.last());
        if let Some(handle) = handle_in(after.last()) {
            assert(handles_in(before) + handles_in(after) =~= (handles_in(before) + handles_in(
                init,
            )).push(handle));
            if words.len() > 0 {
                assert(handles_in(before) + seq![words.last()] + handles_in(after) =~= (handles_in(
                    before,
                ) + seq![words.last()] + handles_in(init)).push(handle));
            }
        }
    }
}

/// The handle in a line is what stands behind the last white space, but for
/// white space at the very end.
pub proof fn law_handle_is_the_last_word(
    head: Seq<char>,
    space: char,
    handle: Seq<char>,
    tail: Seq<char>,
)
    requires
        crate::text::white_space(space),
        handle.len() > 0,
        forall|i: int| 0 <= i < handle.len() ==> !crate::text::white_space(#[trigger] handle[i]),
        forall|i: int| 0 <= i < tail.len() ==> crate::text::white_space(#[trigger] tail[i]),
        crate::text::contains(
            head + seq![space] + (handle + tail),
            "Service RecHandle"@,
        ),
    ensures
        handle_in(head + seq![space] + (handle + tail)) == Some(handle),
{
    crate::text::law_words_parted_by_space(head, space, handle + tail);
    crate::text::lemma_words_before_space(handle, tail);
    crate::text::law_words_hold_no_space(handle);
    let before = crate::text::words_of(head);
    assert((before + seq![handle]).last() == handle);
}

/// The listing block by block: what stands before the first empty line is a
/// block, and the blocks of the rest follow. A listing without an empty line is
/// one block.
pub proof fn law_listing_block_by_block(block: Seq<char>, rest: Seq<char>)
    requires
        forall|i: int|
            0 <= i < block.len() - 1 ==> !(#[trigger] block[i] == '\n' && block[i + 1] == '\n'),
    ensures
        (block.len() == 0 || block[block.len() - 1] != '\n') ==> stale_handles_of(
            block + seq!['\n', '\n'] + rest,
        ) == (if crate::text::contains(block, "PnP Information"@) {
            stale_handles_of(rest)
        } else {
            handles_in(crate::text::lines_of(block)) + stale_handles_of(rest)
        }),
        crate::text::contains(block, "PnP Information"@) ==> stale_handles_of(block) == Seq::<
            Seq<char>,
        >::empty(),
        !crate::text::contains(block, "PnP Information"@) ==> stale_handles_of(block)
            == handles_in(crate::text::lines_of(block)),
{
    let gap = seq!['\n', '\n'];
    let none = Seq::<Seq<char>>::empty();
    assert forall|i: int| !crate::text::occurs_at(block, gap, i) by {
        crate::text::law_occurs_letter_for_letter(block, gap, i);
        if crate::text::occurs_at(block, gap, i) {
            assert(gap[0] == '\n' && gap[1] == '\n');
            assert(block[i + 0] == gap[0]);
            assert(block[i + 1] == gap[1]);
        }
    }
    assert(crate::text::split_on(block, gap) =~= seq![block]);
    assert(seq![block].drop_last() =~= none);
    assert(stale_in(none) == none);
    assert(none + handles_in(crate::text::lines_of(block)) =~= handles_in(
        crate::text::lines_of(block),
    ));
    if !(block.len() > 0 && block[block.len() - 1] == '\n') {
        let text = block + gap + rest;
        let at = block.len() as int;
        assert(text.subrange(at, at + 2) =~= gap);
        assert forall|j: int| 0 <= j < at implies !crate::text::occurs_at(text, gap, j) by {
            crate::text::law_occurs_letter_for_letter(text, gap, j);
            if crate::text::occurs_at(text, gap, j) {
                assert(text[j + 0] == gap[0]);
                assert(text[j + 1] == gap[1]);
                assert(text[j] == block[j]);
                if j + 1 < at {
                    assert(text[j + 1] == block[j + 1]);
                }
            }
        }
        crate::text::lemma_split_step(text, gap, at);
        assert(text.take(at) =~= block);
        assert(text.skip(at + 2) =~= rest);
        let others = crate::text::split_on(rest, gap);
        assert(none + seq![block] + others =~= seq![block] + others);
        if crate::text::contains(block, "PnP Information"@) {
            law_pnp_records_kept(none, block, others);
            assert(none + others =~= others);
        } else {
            law_all_other_records_deleted(none, block, others);
            assert(none + handles_in(crate::text::lines_of(block)) + stale_in(others)
                =~= handles_in(crate::text::lines_of(block)) + stale_in(others));
        }
    }
}

} // verus!
