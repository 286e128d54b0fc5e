//! Whether the program may do its work: it needs to run as root.
use vstd::prelude::*;

use crate::text::{lines, parse_number, starts_with_str, words};

verus! {

/// The user ID assumed where none can be read: not root.
pub const UNKNOWN_UID: u32 = 1;

/// The first of these lines that gives the user IDs of the process.
pub open spec fn uid_line(lines: Seq<Seq<char>>) -> Option<Seq<char>>
    decreases lines.len(),
{
    if lines.len() == 0 {
        None
    } else if crate::text::occurs_at(lines[0], "Uid:"@, 0) {
        Some(lines[0])
    } else {
        uid_line(lines.drop_first())
    }
}

/// The real user ID in a process status file, which is the second word of its
/// `Uid:` line.
pub open spec fn uid_of(status: Seq<char>) -> u32 {
    match uid_line(crate::text::lines_of(status)) {
        Some(line) => {
            let words = crate::text::words_of(line);
            if words.len() >= 2 {
                match crate::text::number_of(words[1], 10, u32::MAX as int) {
                    Some(uid) => uid as u32,
                    None => UNKNOWN_UID,
                }
            } else {
                UNKNOWN_UID
            }
        },
        None => UNKNOWN_UID,
    }
}

/// Reads the user ID from a line.
fn uid_in_line(line: &str) -> (uid: u32)
    ensures
        uid == ({
            let words = crate::text::words_of(line@);
            if words.len() >= 2 {
                match crate::text::number_of(words[1], 10, u32::MAX as int) {
                    Some(uid) => uid as u32,
                    None => UNKNOWN_UID,
                }
            } else {
                UNKNOWN_UID
            }
        }),
{
    let words = words(line);
    assert(crate::text::views(words@).len() == words@.len());
    if words.len() < 2 {
        return UNKNOWN_UID;
    }
    assert(crate::text::views(words@)[1] == words@[1]@);
    match parse_number(words[1], 10, u32::MAX) {
        Some(uid) => uid,
        None => UNKNOWN_UID,
    }
}

/// Reads the user ID from a process status file.
pub fn uid_in_status(status: &str) -> (uid: u32)
    ensures
        uid == uid_of(status@),
{
    let lines = lines(status);
    let ghost all = crate::text::lines_of(status@);
    assert(crate::text::views(lines@).len() == lines@.len());
    assert(all.skip(0) =~= all);
    let mut i: usize = 0;
    while i < lines.len()
        invariant
            i <= lines@.len(),
            crate::text::views(lines@) == all,
            all.len() == lines@.len(),
            all == crate::text::lines_of(status@),
            uid_line(all.skip(i as int)) == uid_line(all),
        decreases lines@.len() - i,
    {
        assert(all.skip(i as int)[0] == lines@[i as int]@);
        assert(all.skip(i as int).drop_first() =~= all.skip(i + 1));
        if starts_with_str(lines[i], "Uid:") {
            return uid_in_line(lines[i]);
        }
        i = i + 1;
    }
    UNKNOWN_UID
}

/// Whether the process runs as root, going by its status file if that could be
/// read.
pub fn is_root(status: Option<&str>) -> (root: bool)
    ensures
        root == (status matches Some(text) && uid_of(text@) == 0),
{
    match status {
        Some(text) => uid_in_status(text) == 0,
        None => false,
    }
}

/// The user ID in a status file, wherever its line stands: the first line that
/// begins with `Uid:` decides, by its second word, which must be a number that
/// fits; where it is none, or missing, the user counts as unknown.
pub proof fn law_first_uid_line_decides(
    status: Seq<char>,
    before: Seq<Seq<char>>,
    line: Seq<char>,
    after: Seq<Seq<char>>,
)
    requires
        crate::text::lines_of(status) == before + seq![line] + after,
        forall|i: int|
            0 <= i < before.len() ==> (#[trigger] before[i]).len() < 4 || before[i].take(4) != seq![
                'U',
                'i',
                'd',
                ':',
            ],
        line.len() >= 4,
        line.take(4) == seq!['U', 'i', 'd', ':'],
    ensures
        crate::text::words_of(line).len() < 2 ==> uid_of(status) == 1,
        crate::text::words_of(line).len() >= 2 ==> match crate::text::number_of(
            crate::text::words_of(line)[1],
            10,
            0xFFFF_FFFF,
        ) {
            Some(uid) => uid_of(status) == uid,
            None => uid_of(status) == 1,
        },
{
    lemma_uid_line_found(before, line, after);
    let words = crate::text::words_of(line);
    if words.len() >= 2 {
        crate::text::lemma_number_not_negative(words[1], 10, 0xFFFF_FFFF);
    }
}

proof fn lemma_uid_line_found(before: Seq<Seq<char>>, line: Seq<char>, after: Seq<Seq<char>>)
    requires
        forall|i: int|
            0 <= i < before.len() ==> (#[trigger] before[i]).len() < 4 || before[i].take(4) != seq![
                'U',
                'i',
                'd',
                ':',
            ],
        line.len() >= 4,
        line.take(4) == seq!['U', 'i', 'd', ':'],
    ensures
        uid_line(before + seq![line] + after) == Some(line),
    decreases before.len(),
{
    reveal_strlit("Uid:");
    assert("Uid:"@ =~= seq!['U', 'i', 'd', ':']);
    let all = before + seq![line] + after;
    if before.len() == 0 {
        assert(all[0] == line);
        assert(line.subrange(0, 4) =~= line.take(4));
    } else {
        let rest = before.drop_first();
        assert forall|i: int| 0 <= i < rest.len() implies (#[trigger] rest[i]).len() < 4
            || rest[i].take(4) != seq!['U', 'i', 'd', ':'] by {
            assert(before[i + 1] == rest[i]);
        }
        lemma_uid_line_found(rest, line, after);
        assert(all[0] == before[0]);
        if before[0].len() >= 4 {
            assert(before[0].subrange(0, 4) =~= before[0].take(4));
        }
        assert(all.drop_first() =~= rest + seq![line] + after);
    }
}

/// Without a line that begins with `Uid:` the user is unknown.
pub proof fn law_no_uid_line_no_root(status: Seq<char>)
    requires
        forall|i: int|
            0 <= i < crate::text::lines_of(status).len() ==> (#[trigger] crate::text::lines_of(
                status,
            )[i]).len() < 4 || crate::text::lines_of(status)[i].take(4) != seq!['U', 'i', 'd', ':'],
    ensures
        uid_of(status) == 1,
{
    lemma_no_uid_line(crate::text::lines_of(status));
}

proof fn lemma_no_uid_line(lines: Seq<Seq<char>>)
    requires
        forall|i: int|
            0 <= i < lines.len() ==> (#[trigger] lines[i]).len() < 4 || lines[i].take(4) != seq![
                'U',
                'i',
                'd',
                ':',
            ],
    ensures
        uid_line(lines) is None,
    decreases lines.len(),
{
    reveal_strlit("Uid:");
    assert("Uid:"@ =~= seq!['U', 'i', 'd', ':']);
    if lines.len() > 0 {
        let rest = lines.drop_first();
        assert forall|i: int| 0 <= i < rest.len() implies (#[trigger] rest[i]).len() < 4
            || rest[i].take(4) != seq!['U', 'i', 'd', ':'] by {
            assert(lines[i + 1] == rest[i]);
        }
        lemma_no_uid_line(rest);
        if lines[0].len() >= 4 {
            assert(lines[0].subrange(0, 4) =~= lines[0].take(4));
        }
    }
}

} // verus!
