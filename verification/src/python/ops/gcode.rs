//! The index maps between commands and lines of machine code, as byte arrays of 32-bit words in
//! the byte order of the machine.
use vstd::prelude::*;

verus! {

/// The lines of machine code that a command became: the first of them, and how many.
#[derive(Clone, Copy, Debug)]
pub struct OpLineRange {
    pub start: u32,
    pub len: u32,
}

/// The byte of a word that has the given weight, zero being the lowest.
pub open spec fn word_byte(word: u32, weight: int) -> u8 {
    if weight == 0 {
        (word % 0x100) as u8
    } else if weight == 1 {
        (word / 0x100 % 0x100) as u8
    } else if weight == 2 {
        (word / 0x1_0000 % 0x100) as u8
    } else {
        (word / 0x100_0000) as u8
    }
}

/// A word as four bytes.
pub open spec fn word_bytes(word: u32, big_endian: bool) -> Seq<u8> {
    if big_endian {
        seq![word_byte(word, 3), word_byte(word, 2), word_byte(word, 1), word_byte(word, 0)]
    } else {
        seq![word_byte(word, 0), word_byte(word, 1), word_byte(word, 2), word_byte(word, 3)]
    }
}

/// Words as bytes, one after the other.
pub open spec fn words_bytes(words: Seq<u32>, big_endian: bool) -> Seq<u8>
    decreases words.len(),
{
    if words.len() == 0 {
        Seq::empty()
    } else {
        words_bytes(words.drop_last(), big_endian) + word_bytes(words.last(), big_endian)
    }
}

/// The first lines and the numbers of lines of the commands, in turn.
pub open spec fn range_words(ranges: Seq<OpLineRange>) -> Seq<u32> {
    Seq::new(
        2 * ranges.len(),
        |k: int|
            if k % 2 == 0 {
                ranges[k / 2].start
            } else {
                ranges[k / 2].len
            },
    )
}

/// The word for a command index: all ones where no command is meant, else the lower 32 bits.
pub open spec fn index_word(v: usize, none: usize) -> u32 {
    if v == none {
        0xffff_ffff
    } else {
        (v as int % 0x1_0000_0000) as u32
    }
}

/// The words for command indices.
pub open spec fn index_words(list: Seq<usize>, none: usize) -> Seq<u32> {
    Seq::new(list.len(), |k: int| index_word(list[k], none))
}

fn push_word(out: &mut Vec<u8>, word: u32, big_endian: bool)
    ensures
        final(out)@ == old(out)@ + word_bytes(word, big_endian),
{
    let b0: u8 = (word % 0x100) as u8;
    let b1: u8 = (word / 0x100 % 0x100) as u8;
    let b2: u8 = (word / 0x1_0000 % 0x100) as u8;
    let b3: u8 = (word / 0x100_0000) as u8;
    if big_endian {
        out.push(b3);
        out.push(b2);
        out.push(b1);
        out.push(b0);
    } else {
        out.push(b0);
        out.push(b1);
        out.push(b2);
        out.push(b3);
    }
    proof {
        assert(out@ =~= old(out)@ + word_bytes(word, big_endian));
    }
}

/// The line ranges of the commands as bytes: for each the first line and the number of lines.
pub fn op_line_ranges_to_pybytes(ranges: &Vec<OpLineRange>, big_endian: bool) -> (r: Vec<u8>)
    ensures
        r@ == words_bytes(range_words(ranges@), big_endian),
{
    let mut out: Vec<u8> = Vec::new();
    let mut i: usize = 0;
    proof {
        assert(out@ =~= words_bytes(range_words(ranges@.take(0)), big_endian));
    }
    while i < ranges.len()
        invariant
            i <= ranges.len(),
            out@ == words_bytes(range_words(ranges@.take(i as int)), big_endian),
        decreases ranges.len() - i,
    {
        let r = ranges[i];
        push_word(&mut out, r.start, big_endian);
        push_word(&mut out, r.len, big_endian);
        proof {
            let now = range_words(ranges@.take(i + 1));
            let half = now.drop_last();
            assert(now.last() == r.len);
            assert(half.last() == r.start);
            assert(half.drop_last() =~= range_words(ranges@.take(i as int)));
            assert(words_bytes(half, big_endian) == words_bytes(half.drop_last(), big_endian)
                + word_bytes(r.start, big_endian));
            assert(words_bytes(now, big_endian) == words_bytes(half, big_endian) + word_bytes(
                r.len,
                big_endian,
            ));
        }
        i += 1;
    }
    proof {
        assert(ranges@.take(i as int) =~= ranges@);
    }
    out
}

/// The commands that the lines belong to as bytes; `none` is the index that means no command.
pub fn machine_code_to_op_to_pybytes(list: &Vec<usize>, none: usize, big_endian: bool) -> (r: Vec<
    u8,
>)
    ensures
        r@ == words_bytes(index_words(list@, none), big_endian),
{
    let mut out: Vec<u8> = Vec::new();
    let mut i: usize = 0;
    proof {
        assert(out@ =~= words_bytes(index_words(list@.take(0), none), big_endian));
    }
    while i < list.len()
        invariant
            i <= list.len(),
            out@ == words_bytes(index_words(list@.take(i as int), none), big_endian),
        decreases list.len() - i,
    {
        let v: usize = list[i];
        let word: u32 = if v == none {
            0xffff_ffff
        } else {
            (v as u64 % 0x1_0000_0000) as u32
        };
        push_word(&mut out, word, big_endian);
        proof {
            let now = index_words(list@.take(i + 1), none);
            assert(now.last() == word);
            assert(now.drop_last() =~= index_words(list@.take(i as int), none));
        }
        i += 1;
    }
    proof {
        assert(list@.take(i as int) =~= list@);
    }
    out
}

/// The word that four bytes hold.
pub open spec fn word_at(bytes: Seq<u8>, k: int, big_endian: bool) -> int {
    if big_endian {
        bytes[4 * k] * 0x100_0000 + bytes[4 * k + 1] * 0x1_0000 + bytes[4 * k + 2] * 0x100
            + bytes[4 * k + 3]
    } else {
        bytes[4 * k] + bytes[4 * k + 1] * 0x100 + bytes[4 * k + 2] * 0x1_0000 + bytes[4 * k + 3]
            * 0x100_0000
    }
}

/// A word read as a signed number.
pub open spec fn signed_word(word: int) -> int {
    if word >= 0x8000_0000 {
        word - 0x1_0000_0000
    } else {
        word
    }
}

/// Reading an array of words back gives the words.
pub proof fn law_words_read_back(words: Seq<u32>, big_endian: bool, k: int)
    requires
        0 <= k < words.len(),
    ensures
        words_bytes(words, big_endian).len() == 4 * words.len(),
        word_at(words_bytes(words, big_endian), k, big_endian) == words[k],
    decreases words.len(),
{
    let front = words.drop_last();
    let last = words.last();
    lemma_words_length(front, big_endian);
    lemma_words_length(words, big_endian);
    let bytes = words_bytes(words, big_endian);
    let before = words_bytes(front, big_endian);
    let tail = word_bytes(last, big_endian);
    assert(bytes == before + tail);
    if k < front.len() {
        law_words_read_back(front, big_endian, k);
        assert(bytes[4 * k] == before[4 * k]);
        assert(bytes[4 * k + 1] == before[4 * k + 1]);
        assert(bytes[4 * k + 2] == before[4 * k + 2]);
        assert(bytes[4 * k + 3] == before[4 * k + 3]);
    } else {
        assert(bytes[4 * k] == tail[0]);
        assert(bytes[4 * k + 1] == tail[1]);
        assert(bytes[4 * k + 2] == tail[2]);
        assert(bytes[4 * k + 3] == tail[3]);
        lemma_word_parts(last);
    }
}

proof fn lemma_word_parts(word: u32)
    ensures
        word_byte(word, 0) + word_byte(word, 1) * 0x100 + word_byte(word, 2) * 0x1_0000
            + word_byte(word, 3) * 0x100_0000 == word,
{
    assert(word / 0x100 / 0x100 == word / 0x1_0000);
    assert(word / 0x1_0000 / 0x100 == word / 0x100_0000);
}

proof fn lemma_words_length(words: Seq<u32>, big_endian: bool)
    ensures
        words_bytes(words, big_endian).len() == 4 * words.len(),
    decreases words.len(),
{
    if words.len() > 0 {
        lemma_words_length(words.drop_last(), big_endian);
    }
}

/// The line map read back as signed words: minus one where a line belongs to no command, and
/// the index of the command elsewhere, as long as it is below two to the thirty-first.
pub proof fn law_line_map_reads_back(list: Seq<usize>, none: usize, big_endian: bool, k: int)
    requires
        0 <= k < list.len(),
        list[k] == none || list[k] < 0x8000_0000,
    ensures
        signed_word(word_at(words_bytes(index_words(list, none), big_endian), k, big_endian))
            == if list[k] == none {
            -1
        } else {
            list[k] as int
        },
{
    law_words_read_back(index_words(list, none), big_endian, k);
}

/// The range map read back: two words per command, its first line and its number of lines.
pub proof fn law_range_map_reads_back(ranges: Seq<OpLineRange>, big_endian: bool, k: int)
    requires
        0 <= k < ranges.len(),
    ensures
        word_at(words_bytes(range_words(ranges), big_endian), 2 * k, big_endian)
            == ranges[k].start,
        word_at(words_bytes(range_words(ranges), big_endian), 2 * k + 1, big_endian)
            == ranges[k].len,
{
    law_words_read_back(range_words(ranges), big_endian, 2 * k);
    law_words_read_back(range_words(ranges), big_endian, 2 * k + 1);
}

/// Each word stands in four bytes, the lowest byte first on a machine that keeps it so and last
/// on one that does not; the words follow one another.
pub proof fn law_word_layout(words: Seq<u32>, k: int)
    requires
        0 <= k < words.len(),
    ensures
        ({
            let little = words_bytes(words, false);
            let big = words_bytes(words, true);
            &&& little.len() == 4 * words.len() && big.len() == 4 * words.len()
            &&& words[k] == little[4 * k] + 0x100 * little[4 * k + 1] + 0x1_0000 * little[4 * k + 2]
                + 0x100_0000 * little[4 * k + 3]
            &&& words[k] == big[4 * k + 3] + 0x100 * big[4 * k + 2] + 0x1_0000 * big[4 * k + 1]
                + 0x100_0000 * big[4 * k]
        }),
{
    law_words_read_back(words, false, k);
    law_words_read_back(words, true, k);
}

/// The words of the maps: of each command its first line and its number of lines in turn; of
/// each line its command, all ones where it has none; of a larger index the lower 32 bits.
pub proof fn law_map_words(ranges: Seq<OpLineRange>, list: Seq<usize>, none: usize, k: int)
    ensures
        range_words(ranges).len() == 2 * ranges.len(),
        0 <= k < ranges.len() ==> range_words(ranges)[2 * k] == ranges[k].start && range_words(
            ranges,
        )[2 * k + 1] == ranges[k].len,
        index_words(list, none).len() == list.len(),
        0 <= k < list.len() && list[k] == none ==> index_words(list, none)[k] == u32::MAX,
        0 <= k < list.len() && list[k] != none ==> index_words(list, none)[k] == list[k] as int
            % 0x1_0000_0000int,
{
}

} // verus!
