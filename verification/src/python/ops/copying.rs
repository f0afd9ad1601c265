//! Copying commands from one sequence to another, and splitting a sequence.
use crate::error::{fails, ErrorKind, PyError};
use crate::ops::command::{CommandModel, CommandType};
use crate::ops::container::{lemma_extended_twice, repeated, selected, Ops, OpsModel};
use crate::python::ops::container::PyOps;
use crate::python::ops::layers::{lemma_find_suffix, lemma_suffix_shift};
use crate::text::{append_decimal, decimal};
use vstd::prelude::*;
use vstd::string::StringExecFns;

verus! {

/// The first index from `from` on that holds a command of a kind; the length if there is none.
pub open spec fn find_kind(cs: Seq<CommandModel>, kind: CommandType, from: int) -> int
    decreases cs.len() - from,
{
    if from >= cs.len() {
        cs.len() as int
    } else if cs[from].kind() == kind {
        from
    } else {
        find_kind(cs, kind, from + 1)
    }
}

/// The end marker that belongs to a start marker at which a sequence can be split.
pub open spec fn end_kind(start: CommandType) -> Option<CommandType> {
    match start {
        CommandType::LayerStart => Some(CommandType::LayerEnd),
        CommandType::WorkpieceStart => Some(CommandType::WorkpieceEnd),
        CommandType::OpsSectionStart => Some(CommandType::OpsSectionEnd),
        CommandType::JobStart => Some(CommandType::JobEnd),
        _ => None,
    }
}

/// A run of commands as a list of one piece, or of none if it is empty.
pub open spec fn run(cs: Seq<CommandModel>, a: int, b: int) -> Seq<Seq<CommandModel>> {
    if a < b {
        seq![cs.subrange(a, b)]
    } else {
        Seq::empty()
    }
}

/// The pieces from index `from` on. A start marker and the next end marker after it bound a
/// piece that holds them and all between; the commands between two such pieces, before the
/// first and after the last are pieces of their own.
pub open spec fn pieces_from(
    cs: Seq<CommandModel>,
    start: CommandType,
    end: CommandType,
    from: int,
) -> Seq<Seq<CommandModel>>
    decreases cs.len() - from,
    when 0 <= from
    via pieces_from_decreases
{
    let i = find_kind(cs, start, from);
    let j = find_kind(cs, end, i + 1);
    if i >= cs.len() || j >= cs.len() {
        run(cs, from, cs.len() as int)
    } else {
        run(cs, from, i) + seq![cs.subrange(i, j + 1)] + pieces_from(cs, start, end, j + 1)
    }
}

#[via_fn]
proof fn pieces_from_decreases(
    cs: Seq<CommandModel>,
    start: CommandType,
    end: CommandType,
    from: int,
) {
    lemma_find_kind(cs, start, from);
    lemma_find_kind(cs, end, find_kind(cs, start, from) + 1);
}

/// What a search finds.
pub proof fn lemma_find_kind(cs: Seq<CommandModel>, kind: CommandType, from: int)
    requires
        0 <= from,
    ensures
        find_kind(cs, kind, from) <= cs.len(),
        from <= cs.len() ==> from <= find_kind(cs, kind, from),
        find_kind(cs, kind, from) < cs.len() ==> from <= find_kind(cs, kind, from) && cs[find_kind(
            cs,
            kind,
            from,
        )].kind() == kind,
        forall|m: int|
            from <= m < find_kind(cs, kind, from) ==> (#[trigger] cs[m]).kind() != kind,
    decreases cs.len() - from,
{
    if from < cs.len() && cs[from].kind() != kind {
        lemma_find_kind(cs, kind, from + 1);
    }
}

/// The commands of each of several sequences.
pub open spec fn piece_views(ops: Seq<PyOps>) -> Seq<Seq<CommandModel>> {
    Seq::new(ops.len(), |k: int| ops[k]@.commands)
}

/// Whether sequences were built anew from the given pieces.
pub open spec fn are_pieces(ops: Seq<PyOps>, pieces: Seq<Seq<CommandModel>>) -> bool {
    &&& piece_views(ops) == pieces
    &&& forall|k: int|
        0 <= k < ops.len() ==> (#[trigger] ops[k])@ == OpsModel::fresh().extended(pieces[k])
}

/// Whether commands are one matched pair of markers with what lies between: they start with the
/// start marker and end with the only end marker.
pub open spec fn one_pair(p: Seq<CommandModel>, start: CommandType, end: CommandType) -> bool {
    &&& p.len() >= 2
    &&& p[0].kind() == start
    &&& p[p.len() - 1].kind() == end
    &&& forall|m: int| 0 <= m < p.len() - 1 ==> (#[trigger] p[m]).kind() != end
}

/// Whether no start marker among commands is followed by an end marker.
pub open spec fn no_pair(p: Seq<CommandModel>, start: CommandType, end: CommandType) -> bool {
    forall|a: int, b: int|
        0 <= a < b < p.len() ==> (#[trigger] p[a]).kind() != start || (#[trigger] p[b]).kind()
            != end
}

/// Whether every piece is one matched pair or holds none, no two of the second sort follow one
/// another, and only the last of that sort can hold a start marker.
pub open spec fn sorted_out(
    pieces: Seq<Seq<CommandModel>>,
    start: CommandType,
    end: CommandType,
) -> bool {
    &&& forall|k: int|
        0 <= k < pieces.len() ==> one_pair(#[trigger] pieces[k], start, end) || no_pair(
            pieces[k],
            start,
            end,
        )
    &&& forall|k: int, l: int|
        0 <= k < pieces.len() && l == k + 1 && l < pieces.len() ==> one_pair(
            #[trigger] pieces[k],
            start,
            end,
        ) || one_pair(#[trigger] pieces[l], start, end)
    &&& forall|k: int, m: int|
        0 <= k < pieces.len() - 1 && !one_pair(pieces[k], start, end) && 0 <= m < pieces[k].len()
            ==> (#[trigger] pieces[k][m]).kind() != start
}

/// Whether pieces are a sequence taken apart at its pairs: they give the sequence back, none is
/// empty, and each pair is a piece of its own.
pub open spec fn taken_apart(
    cs: Seq<CommandModel>,
    pieces: Seq<Seq<CommandModel>>,
    start: CommandType,
    end: CommandType,
) -> bool {
    &&& pieces.flatten() == cs
    &&& forall|k: int| 0 <= k < pieces.len() ==> (#[trigger] pieces[k]).len() > 0
    &&& sorted_out(pieces, start, end)
}

/// The first index from `from` on that holds a command of a kind; the length if there is none.
pub fn find_command(ops: &Ops, kind: CommandType, from: usize) -> (r: usize)
    requires
        from <= ops@.commands.len(),
    ensures
        r == find_kind(ops@.commands, kind, from as int),
        from <= r <= ops@.commands.len(),
{
    let mut i: usize = from;
    while i < ops.len() && ops.command_type(i) != kind
        invariant
            from <= i <= ops@.commands.len(),
            find_kind(ops@.commands, kind, from as int) == find_kind(
                ops@.commands,
                kind,
                i as int,
            ),
        decreases ops@.commands.len() - i,
    {
        i += 1;
    }
    i
}

/// A new sequence of copies of a range of commands.
fn piece_of(ops: &Ops, start: usize, end: usize) -> (r: PyOps)
    requires
        start <= end <= ops@.commands.len(),
    ensures
        r@ == OpsModel::fresh().extended(ops@.commands.subrange(start as int, end as int)),
{
    let mut piece = Ops::new();
    piece.transfer_range_from(ops, start, end);
    PyOps { inner: piece }
}

impl PyOps {
    /// A copy.
    pub fn copy(&self) -> (r: PyOps)
        ensures
            r@ == self@,
    {
        PyOps { inner: self.inner.copy() }
    }

    /// The commands of this sequence followed by those of another.
    pub fn __add__(&self, other: &PyOps) -> (r: PyOps)
        ensures
            r@ == self@.extended(other@.commands),
    {
        let mut inner = self.inner.copy();
        inner.extend(&other.inner);
        PyOps { inner }
    }

    /// The commands of this sequence, `count` times over.
    pub fn __mul__(&self, count: usize) -> (r: PyOps)
        ensures
            r@ == OpsModel::fresh().extended(repeated(self@.commands, count as nat)),
    {
        let mut inner = Ops::new();
        let mut i: usize = 0;
        proof {
            assert(inner@.commands =~= inner@.commands + repeated(self@.commands, 0));
        }
        while i < count
            invariant
                i <= count,
                inner@ == OpsModel::fresh().extended(repeated(self@.commands, i as nat)),
            decreases count - i,
        {
            inner.extend(&self.inner);
            proof {
                lemma_extended_twice(
                    OpsModel::fresh(),
                    repeated(self@.commands, i as nat),
                    self@.commands,
                );
            }
            i += 1;
        }
        PyOps { inner }
    }

    /// Appends a copy of one command of another sequence.
    pub fn copy_command_from(&mut self, source: &PyOps, idx: usize)
        requires
            idx < source@.commands.len(),
        ensures
            final(self)@ == old(self)@.pushed(source@.commands[idx as int]),
    {
        self.inner.transfer_command_from(&source.inner, idx);
    }

    /// Appends one command of another sequence.
    pub fn transfer_command_from(&mut self, source: &PyOps, idx: usize)
        requires
            idx < source@.commands.len(),
        ensures
            final(self)@ == old(self)@.pushed(source@.commands[idx as int]),
    {
        self.inner.transfer_command_from(&source.inner, idx);
    }

    /// Appends the commands of another sequence, if one is given.
    pub fn extend(&mut self, other: Option<&PyOps>)
        ensures
            final(self)@ == match other {
                Some(o) => old(self)@.extended(o@.commands),
                None => old(self)@,
            },
    {
        if let Some(o) = other {
            self.inner.extend(&o.inner);
        }
    }

    /// Removes all commands.
    pub fn clear(&mut self)
        ensures
            final(self)@ == old(self)@.cleared(),
    {
        self.inner.clear();
    }

    /// A new sequence of the commands at the given indices.
    pub fn sub_ops(&self, indices: &Vec<usize>) -> (r: PyOps)
        requires
            forall|k: int| 0 <= k < indices@.len() ==> #[trigger] indices@[k]
                < self@.commands.len(),
        ensures
            r@ == OpsModel::fresh().extended(selected(self@.commands, indices@)),
    {
        PyOps { inner: self.inner.sub_ops(indices) }
    }

    /// A new sequence of the commands from `start` up to, not including, `end`.
    pub fn extract_range(&self, start: usize, end: usize) -> (r: PyOps)
        requires
            start <= end <= self@.commands.len(),
        ensures
            r@ == OpsModel::fresh().extended(
                self@.commands.subrange(start as int, end as int),
            ),
    {
        piece_of(&self.inner, start, end)
    }

    /// Replaces all commands by those of another sequence.
    pub fn replace_all(&mut self, source: &PyOps)
        ensures
            final(self)@ == old(self)@.cleared().extended(source@.commands),
    {
        self.inner.clear();
        self.inner.extend(&source.inner);
    }

    /// Puts copies of the commands of another sequence in the place of the commands, and leaves
    /// the end of the last travel move as it is.
    pub fn replace_with(&mut self, source: &PyOps)
        ensures
            final(self)@ == old(self)@.with_commands(source@.commands),
    {
        let copy = source.inner.copy();
        self.inner.commands = copy.commands;
        self.inner.time_dirty = true;
    }

    /// Splits the sequence at pairs of markers.
    ///
    /// `raw` is the value that the caller gave for the kind of start marker, `decoded` the kind
    /// that it stands for, if any, and `shown` how that kind is displayed. A value that stands
    /// for no kind, and a kind that starts no pair, are value errors.
    pub fn split_at(&self, raw: u8, decoded: Option<CommandType>, shown: &str) -> (r: Result<
        Vec<PyOps>,
        PyError,
    >)
        ensures
            match decoded {
                None => fails(
                    r,
                    ErrorKind::Value,
                    "invalid CommandType value: "@ + decimal(raw as nat),
                ),
                Some(ct) => match end_kind(ct) {
                    None => fails(
                        r,
                        ErrorKind::Value,
                        "unsupported marker type: "@ + shown@
                            + ". Use LAYER_START, WORKPIECE_START, OPS_SECTION_START, or JOB_START"@,
                    ),
                    Some(end) => r is Ok && are_pieces(
                        r->Ok_0@,
                        pieces_from(self@.commands, ct, end, 0),
                    ) && taken_apart(self@.commands, piece_views(r->Ok_0@), ct, end),
                },
            },
    {
        let ct = match decoded {
            Some(ct) => ct,
            None => {
                let mut message = "invalid CommandType value: ".to_string();
                append_decimal(&mut message, raw as usize);
                return Err(PyError { kind: ErrorKind::Value, message });
            },
        };
        let end = match ct {
            CommandType::LayerStart => CommandType::LayerEnd,
            CommandType::WorkpieceStart => CommandType::WorkpieceEnd,
            CommandType::OpsSectionStart => CommandType::OpsSectionEnd,
            CommandType::JobStart => CommandType::JobEnd,
            _ => {
                let mut message = "unsupported marker type: ".to_string();
                message.append(shown);
                message.append(
                    ". Use LAYER_START, WORKPIECE_START, OPS_SECTION_START, or JOB_START",
                );
                return Err(PyError { kind: ErrorKind::Value, message });
            },
        };
        Ok(split_at_pairs(&self.inner, ct, end))
    }
}

fn split_at_pairs(ops: &Ops, start: CommandType, end: CommandType) -> (r: Vec<PyOps>)
    ensures
        are_pieces(r@, pieces_from(ops@.commands, start, end, 0)),
        start != end ==> taken_apart(ops@.commands, piece_views(r@), start, end),
{
    let ghost cs = ops@.commands;
    let n: usize = ops.len();
    let mut r: Vec<PyOps> = Vec::new();
    let mut from: usize = 0;
    let mut open = true;
    proof {
        assert(piece_views(r@) + pieces_from(cs, start, end, 0) =~= pieces_from(
            cs,
            start,
            end,
            0,
        ));
    }
    while open
        invariant
            cs == ops@.commands,
            n == cs.len(),
            from <= n,
            open ==> piece_views(r@) + pieces_from(cs, start, end, from as int) == pieces_from(
                cs,
                start,
                end,
                0,
            ),
            !open ==> piece_views(r@) == pieces_from(cs, start, end, 0),
            forall|k: int|
                0 <= k < r@.len() ==> (#[trigger] r@[k])@ == OpsModel::fresh().extended(
                    r@[k]@.commands,
                ),
        decreases n - from,
            if open {
                1int
            } else {
                0int
            },
    {
        let ghost before = piece_views(r@);
        let ghost rest = pieces_from(cs, start, end, from as int);
        let i: usize = find_command(ops, start, from);
        let j: usize = if i < n {
            find_command(ops, end, i + 1)
        } else {
            n
        };
        if i >= n || j >= n {
            if from < n {
                push_piece(&mut r, ops, from, n);
            }
            proof {
                assert(piece_views(r@) =~= before + rest);
            }
            open = false;
        } else {
            if from < i {
                push_piece(&mut r, ops, from, i);
            }
            push_piece(&mut r, ops, i, j + 1);
            proof {
                let next = pieces_from(cs, start, end, j + 1);
                assert(piece_views(r@) + next =~= before + rest);
            }
            from = j + 1;
        }
    }
    proof {
        assert forall|k: int| 0 <= k < r@.len() implies (#[trigger] r@[k])@
            == OpsModel::fresh().extended(piece_views(r@)[k]) by {}
        law_split_reproduces(cs, start, end, 0);
        assert(cs.subrange(0, cs.len() as int) =~= cs);
        if start != end {
            law_split_pieces(cs, start, end, 0);
        }
    }
    r
}

fn push_piece(parts: &mut Vec<PyOps>, ops: &Ops, start: usize, end: usize)
    requires
        start <= end <= ops@.commands.len(),
    ensures
        piece_views(final(parts)@) == piece_views(old(parts)@).push(
            ops@.commands.subrange(start as int, end as int),
        ),
        final(parts)@.len() == old(parts)@.len() + 1,
        forall|k: int|
            0 <= k < old(parts)@.len() ==> #[trigger] final(parts)@[k] == old(parts)@[k],
        final(parts)@.last()@ == OpsModel::fresh().extended(final(parts)@.last()@.commands),
{
    let piece = piece_of(ops, start, end);
    proof {
        let cut = ops@.commands.subrange(start as int, end as int);
        assert(Seq::<CommandModel>::empty() + cut =~= cut);
        assert(piece@.commands == cut);
    }
    parts.push(piece);
    proof {
        assert(piece_views(parts@) =~= piece_views(old(parts)@).push(
            ops@.commands.subrange(start as int, end as int),
        ));
    }
}

/// Putting the pieces of a split one after the other gives back the commands, and no piece is
/// empty.
pub proof fn law_split_reproduces(
    cs: Seq<CommandModel>,
    start: CommandType,
    end: CommandType,
    from: int,
)
    requires
        0 <= from <= cs.len(),
    ensures
        pieces_from(cs, start, end, from).flatten() == cs.subrange(from, cs.len() as int),
        forall|k: int|
            0 <= k < pieces_from(cs, start, end, from).len() ==> (#[trigger] pieces_from(
                cs,
                start,
                end,
                from,
            )[k]).len() > 0,
    decreases cs.len() - from,
{
    let n = cs.len() as int;
    let i = find_kind(cs, start, from);
    lemma_find_kind(cs, start, from);
    lemma_find_kind(cs, end, i + 1);
    let j = find_kind(cs, end, i + 1);
    let pieces = pieces_from(cs, start, end, from);
    if i < n && j < n {
        let pair = cs.subrange(i, j + 1);
        let rest = pieces_from(cs, start, end, j + 1);
        let head = run(cs, from, i);
        law_split_reproduces(cs, start, end, j + 1);
        assert(pieces == head + seq![pair] + rest);
        assert(pieces.flatten() == cs.subrange(from, n)) by {
            lemma_run(cs, from, i);
            lemma_flatten_concat(head + seq![pair], rest);
            lemma_flatten_concat(head, seq![pair]);
            seq![pair].lemma_flatten_one_element();
            assert(cs.subrange(from, i) + pair + cs.subrange(j + 1, n) =~= cs.subrange(from, n));
        }
        assert forall|k: int| 0 <= k < pieces.len() implies (#[trigger] pieces[k]).len() > 0 by {
            if k > head.len() {
                assert(pieces[k] == rest[k - head.len() - 1]);
            }
        }
    } else {
        lemma_run(cs, from, n);
    }
}

/// A pair of markers bounds a piece: the piece starts with the start marker, ends with the end
/// marker, and has no other end marker.
pub proof fn law_split_pair(
    cs: Seq<CommandModel>,
    start: CommandType,
    end: CommandType,
    from: int,
)
    requires
        0 <= from <= cs.len(),
        end_kind(start) == Some(end),
        find_kind(cs, end, find_kind(cs, start, from) + 1) < cs.len(),
    ensures
        ({
            let i = find_kind(cs, start, from);
            let j = find_kind(cs, end, i + 1);
            let at = run(cs, from, i).len();
            let piece = pieces_from(cs, start, end, from)[at as int];
            &&& at < pieces_from(cs, start, end, from).len()
            &&& piece == cs.subrange(i, j + 1)
            &&& piece.first().kind() == start
            &&& piece.last().kind() == end
            &&& forall|m: int| 0 <= m < piece.len() - 1 ==> (#[trigger] piece[m]).kind() != end
        }),
{
    let i = find_kind(cs, start, from);
    lemma_find_kind(cs, start, from);
    lemma_find_kind(cs, end, i + 1);
    if i >= cs.len() {
        assert(find_kind(cs, end, i + 1) == cs.len());
    }
}

proof fn lemma_run(cs: Seq<CommandModel>, a: int, b: int)
    requires
        0 <= a <= b <= cs.len(),
    ensures
        run(cs, a, b).flatten() == cs.subrange(a, b),
{
    if a < b {
        run(cs, a, b).lemma_flatten_one_element();
    } else {
        assert(cs.subrange(a, b) =~= Seq::empty());
    }
}

proof fn lemma_flatten_concat(a: Seq<Seq<CommandModel>>, b: Seq<Seq<CommandModel>>)
    ensures
        (a + b).flatten() == a.flatten() + b.flatten(),
    decreases a.len(),
{
    if a.len() == 0 {
        assert(a + b =~= b);
    } else {
        assert((a + b).drop_first() =~= a.drop_first() + b);
        lemma_flatten_concat(a.drop_first(), b);
    }
}

/// Repeating a sequence multiplies its length.
pub proof fn law_repeat_length(cs: Seq<CommandModel>, count: nat)
    ensures
        repeated(cs, count).len() == count * cs.len(),
    decreases count,
{
    if count > 0 {
        law_repeat_length(cs, (count - 1) as nat);
        assert(count * cs.len() == (count - 1) * cs.len() + cs.len()) by (nonlinear_arith)
            requires
                count > 0,
        ;
    } else {
        assert(count * cs.len() == 0) by (nonlinear_arith)
            requires
                count == 0,
        ;
    }
}

/// Extracting a range is selecting its indices.
pub proof fn law_range_is_selection(
    cs: Seq<CommandModel>,
    start: int,
    end: int,
    indices: Seq<usize>,
)
    requires
        0 <= start <= end <= cs.len(),
        indices.len() == end - start,
        forall|k: int| 0 <= k < indices.len() ==> #[trigger] indices[k] == start + k,
    ensures
        selected(cs, indices) == cs.subrange(start, end),
{
    assert(selected(cs, indices) =~= cs.subrange(start, end));
}

/// Two ranges, one behind the other, make up the range from the start of the first to the end of
/// the second.
pub proof fn law_ranges_join(cs: Seq<CommandModel>, start: int, mid: int, end: int)
    requires
        0 <= start <= mid <= end <= cs.len(),
    ensures
        OpsModel::fresh().extended(cs.subrange(start, mid)).extended(cs.subrange(mid, end))
            == OpsModel::fresh().extended(cs.subrange(start, end)),
{
    lemma_extended_twice(OpsModel::fresh(), cs.subrange(start, mid), cs.subrange(mid, end));
    assert(cs.subrange(start, mid) + cs.subrange(mid, end) =~= cs.subrange(start, end));
}

/// A sequence can be split at the starts of layers, workpieces, sections and jobs, and at
/// nothing else; each of them pairs with the end of its own sort.
pub proof fn law_split_kinds(start: CommandType)
    ensures
        end_kind(start) is Some <==> start == CommandType::LayerStart || start
            == CommandType::WorkpieceStart || start == CommandType::OpsSectionStart || start
            == CommandType::JobStart,
        end_kind(CommandType::LayerStart) == Some(CommandType::LayerEnd),
        end_kind(CommandType::WorkpieceStart) == Some(CommandType::WorkpieceEnd),
        end_kind(CommandType::OpsSectionStart) == Some(CommandType::OpsSectionEnd),
        end_kind(CommandType::JobStart) == Some(CommandType::JobEnd),
{
}

/// Every piece is either one matched pair with its content, or commands outside any pair: no
/// piece holds two pairs, and none holds a pair together with what lies outside it. Two pieces
/// of the second sort never follow one another, and only the last piece of that sort can hold a
/// start marker.
pub proof fn law_split_pieces(
    cs: Seq<CommandModel>,
    start: CommandType,
    end: CommandType,
    from: int,
)
    requires
        0 <= from <= cs.len(),
        start != end,
    ensures
        sorted_out(pieces_from(cs, start, end, from), start, end),
    decreases cs.len() - from,
{
    let n = cs.len() as int;
    let i = find_kind(cs, start, from);
    lemma_find_kind(cs, start, from);
    lemma_find_kind(cs, end, i + 1);
    let j = find_kind(cs, end, i + 1);
    let pieces = pieces_from(cs, start, end, from);
    if i < n && j < n {
        law_split_pieces(cs, start, end, j + 1);
        let pair = cs.subrange(i, j + 1);
        let rest = pieces_from(cs, start, end, j + 1);
        assert(one_pair(pair, start, end)) by {
            assert forall|m: int| 0 <= m < pair.len() - 1 implies (#[trigger] pair[m]).kind()
                != end by {
                assert(pair[m] == cs[i + m]);
            }
        }
        lemma_put_before(pair, rest, start, end);
        if from < i {
            let head = cs.subrange(from, i);
            assert forall|m: int| 0 <= m < head.len() implies (#[trigger] head[m]).kind()
                != start by {
                assert(head[m] == cs[from + m]);
            }
            lemma_put_before(head, seq![pair] + rest, start, end);
            assert(pieces =~= seq![head] + (seq![pair] + rest));
        } else {
            assert(pieces =~= seq![pair] + rest);
        }
    } else if from < n {
        let p = cs.subrange(from, n);
        assert(pieces == seq![p]);
        assert forall|a: int, b: int| 0 <= a < b < p.len() implies (#[trigger] p[a]).kind() != start
            || (#[trigger] p[b]).kind() != end by {
            assert(p[a] == cs[from + a]);
            assert(p[b] == cs[from + b]);
        }
    }
}

proof fn lemma_put_before(
    p: Seq<CommandModel>,
    rest: Seq<Seq<CommandModel>>,
    start: CommandType,
    end: CommandType,
)
    requires
        sorted_out(rest, start, end),
        one_pair(p, start, end) || rest.len() > 0 && one_pair(rest[0], start, end) && forall|
            m: int,
        |
            0 <= m < p.len() ==> (#[trigger] p[m]).kind() != start,
    ensures
        sorted_out(seq![p] + rest, start, end),
{
    let pieces = seq![p] + rest;
    assert(pieces[0] == p);
    assert forall|k: int| 0 <= k < pieces.len() implies one_pair(#[trigger] pieces[k], start, end)
        || no_pair(pieces[k], start, end) by {
        if k > 0 {
            assert(pieces[k] == rest[k - 1]);
        }
    }
    assert forall|k: int, l: int|
        0 <= k < pieces.len() && l == k + 1 && l < pieces.len() implies one_pair(
        #[trigger] pieces[k],
        start,
        end,
    ) || one_pair(#[trigger] pieces[l], start, end) by {
        assert(pieces[l] == rest[l - 1]);
        if k > 0 {
            assert(pieces[k] == rest[k - 1]);
        }
    }
    assert forall|k: int, m: int|
        0 <= k < pieces.len() - 1 && !one_pair(pieces[k], start, end) && 0 <= m
            < pieces[k].len() implies (#[trigger] pieces[k][m]).kind() != start by {
        if k > 0 {
            assert(pieces[k] == rest[k - 1]);
            assert(rest[k - 1][m].kind() != start);
        }
    }
}

/// How a split takes a sequence apart: what precedes the first pair is a piece, unless it is
/// empty; the pair with its content is a piece; and the rest is split in the same way, so that
/// every later pair is a piece as well.
pub proof fn law_split_by_parts(
    before: Seq<CommandModel>,
    pair: Seq<CommandModel>,
    rest: Seq<CommandModel>,
    start: CommandType,
    end: CommandType,
)
    requires
        start != end,
        one_pair(pair, start, end),
        forall|m: int| 0 <= m < before.len() ==> (#[trigger] before[m]).kind() != start,
    ensures
        pieces_from(before + pair + rest, start, end, 0) == (if before.len() > 0 {
            seq![before]
        } else {
            Seq::empty()
        }) + seq![pair] + pieces_from(rest, start, end, 0),
{
    let cs = before + pair + rest;
    let n = cs.len() as int;
    let i = before.len() as int;
    let j = i + pair.len() - 1;
    assert forall|m: int| 0 <= m < i implies (#[trigger] cs[m]).kind() != start by {
        assert(cs[m] == before[m]);
    }
    assert(cs[i] == pair[0]);
    assert(cs[j] == pair[pair.len() - 1]);
    assert forall|m: int| i + 1 <= m < j implies (#[trigger] cs[m]).kind() != end by {
        assert(cs[m] == pair[m - i]);
    }
    lemma_first_at(cs, start, 0, i);
    lemma_first_at(cs, end, i + 1, j);
    assert(cs.subrange(0, i) =~= before);
    assert(cs.subrange(i, j + 1) =~= pair);
    assert(cs.subrange(j + 1, n) =~= rest);
    assert(rest.subrange(0, rest.len() as int) =~= rest);
    lemma_pieces_suffix(cs, j + 1, rest, 0, start, end);
}

/// Commands without a matched pair are one piece, or none if there are no commands.
pub proof fn law_split_without_pairs(cs: Seq<CommandModel>, start: CommandType, end: CommandType)
    requires
        no_pair(cs, start, end),
    ensures
        pieces_from(cs, start, end, 0) == if cs.len() > 0 {
            seq![cs]
        } else {
            Seq::empty()
        },
{
    let i = find_kind(cs, start, 0);
    lemma_find_kind(cs, start, 0);
    lemma_find_kind(cs, end, i + 1);
    let j = find_kind(cs, end, i + 1);
    if i < cs.len() && j < cs.len() {
        assert(cs[i].kind() == start && cs[j].kind() == end);
    }
    assert(cs.subrange(0, cs.len() as int) =~= cs);
}

proof fn lemma_first_at(cs: Seq<CommandModel>, kind: CommandType, from: int, at: int)
    requires
        0 <= from <= at < cs.len(),
        cs[at].kind() == kind,
        forall|m: int| from <= m < at ==> (#[trigger] cs[m]).kind() != kind,
    ensures
        find_kind(cs, kind, from) == at,
    decreases at - from,
{
    if from < at {
        assert(cs[from].kind() != kind);
        lemma_first_at(cs, kind, from + 1, at);
    }
}

/// The pieces depend only on the commands from where the split starts.
proof fn lemma_pieces_suffix(
    a: Seq<CommandModel>,
    x: int,
    b: Seq<CommandModel>,
    y: int,
    start: CommandType,
    end: CommandType,
)
    requires
        0 <= x <= a.len(),
        0 <= y <= b.len(),
        a.subrange(x, a.len() as int) == b.subrange(y, b.len() as int),
    ensures
        pieces_from(a, start, end, x) == pieces_from(b, start, end, y),
    decreases a.len() - x,
{
    let n = a.len() as int;
    let m = b.len() as int;
    lemma_suffix_shift(a, x, b, y, 0);
    lemma_suffix_shift(a, x, b, y, n - x);
    lemma_find_suffix(a, x, b, y, start);
    let i = find_kind(a, start, x);
    let k = find_kind(b, start, y);
    lemma_find_kind(a, start, x);
    lemma_find_kind(b, start, y);
    if i < n {
        lemma_suffix_shift(a, x, b, y, i - x);
        lemma_suffix_shift(a, x, b, y, i + 1 - x);
        lemma_find_suffix(a, i + 1, b, k + 1, end);
        let j = find_kind(a, end, i + 1);
        let l = find_kind(b, end, k + 1);
        lemma_find_kind(a, end, i + 1);
        lemma_find_kind(b, end, k + 1);
        if j < n {
            lemma_suffix_shift(a, i, b, k, j + 1 - i);
            lemma_pieces_suffix(a, j + 1, b, l + 1, start, end);
            assert(a.subrange(i, j + 1) == b.subrange(k, l + 1));
            assert(run(a, x, i) == run(b, y, k));
        } else {
            assert(run(a, x, n) == run(b, y, m));
        }
    } else {
        assert(run(a, x, n) == run(b, y, m));
    }
}

/// Sequences built from pieces are as many as the pieces, and each holds the commands of its
/// piece and nothing else.
pub proof fn law_pieces_hold_their_commands(ops: Seq<PyOps>, pieces: Seq<Seq<CommandModel>>)
    requires
        are_pieces(ops, pieces),
    ensures
        ops.len() == pieces.len(),
        forall|k: int| 0 <= k < ops.len() ==> (#[trigger] ops[k])@.commands == pieces[k],
{
    assert forall|k: int| 0 <= k < ops.len() implies (#[trigger] ops[k])@.commands
        == pieces[k] by {
        assert(piece_views(ops)[k] == ops[k]@.commands);
    }
}

/// Repeating a sequence once gives the sequence, no times gives no commands, and so many and so
/// many more times gives the one followed by the other.
pub proof fn law_repeat_adds(cs: Seq<CommandModel>, a: nat, b: nat)
    ensures
        repeated(cs, 0) == Seq::<CommandModel>::empty(),
        repeated(cs, 1) == cs,
        repeated(cs, a + b) == repeated(cs, a) + repeated(cs, b),
    decreases b,
{
    reveal_with_fuel(repeated, 2);
    assert(Seq::<CommandModel>::empty() + cs =~= cs);
    if b > 0 {
        law_repeat_adds(cs, a, (b - 1) as nat);
        assert(repeated(cs, a) + repeated(cs, (b - 1) as nat) + cs =~= repeated(cs, a) + (repeated(
            cs,
            (b - 1) as nat,
        ) + cs));
    } else {
        assert(repeated(cs, a) + Seq::<CommandModel>::empty() =~= repeated(cs, a));
    }
}

/// A selection holds, in the order of the indices, the command at each of them.
pub proof fn law_selection(cs: Seq<CommandModel>, indices: Seq<usize>)
    ensures
        selected(cs, indices).len() == indices.len(),
        forall|k: int|
            0 <= k < indices.len() ==> #[trigger] selected(cs, indices)[k]
                == cs[indices[k] as int],
{
}

} // verus!
