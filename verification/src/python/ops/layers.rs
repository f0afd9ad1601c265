//! Rewriting a sequence layer by layer.
//!
//! The caller looks for the next layer, hands a copy of it out, and puts what came back in the
//! place of the layer. The search then goes on behind it.
use crate::ops::command::{CommandModel, CommandType, MarkerCmd, MarkerModel, OpCategory, OpNode};
use crate::ops::container::{command_views, Ops, OpsModel};
use crate::python::ops::container::PyOps;
use crate::python::ops::copying::{find_command, find_kind, lemma_find_kind};
use vstd::prelude::*;

verus! {

/// A layer: its identifier, the index of its start marker, and the index behind its last
/// command.
#[derive(Debug)]
pub struct LayerSpan {
    pub uid: String,
    pub start: usize,
    pub end: usize,
}

/// Whether a command starts a layer.
pub open spec fn starts_layer(c: CommandModel) -> bool {
    c matches CommandModel::Marker(MarkerModel::LayerStart(_))
}

/// Whether a command ends a layer.
pub open spec fn ends_layer(c: CommandModel) -> bool {
    c matches CommandModel::Marker(MarkerModel::LayerEnd(_))
}

/// The index behind a layer that starts at an index: behind the next end marker, or behind the
/// last command if there is none.
pub open spec fn layer_stop(cs: Seq<CommandModel>, start: int) -> int {
    let j = find_kind(cs, CommandType::LayerEnd, start);
    if j < cs.len() {
        j + 1
    } else {
        cs.len() as int
    }
}

/// The identifier of the layer that a marker starts.
pub open spec fn layer_name(c: CommandModel) -> Seq<char> {
    match c {
        CommandModel::Marker(MarkerModel::LayerStart(uid)) => uid,
        _ => Seq::empty(),
    }
}

/// The commands from index `from` on, with every layer replaced by what `f` makes of it.
pub open spec fn mapped_from(
    cs: Seq<CommandModel>,
    f: spec_fn(Seq<char>, Seq<CommandModel>) -> Seq<CommandModel>,
    from: int,
) -> Seq<CommandModel>
    decreases cs.len() - from,
    when 0 <= from <= cs.len()
    via mapped_from_decreases
{
    let i = find_kind(cs, CommandType::LayerStart, from);
    if i >= cs.len() {
        cs.subrange(from, cs.len() as int)
    } else {
        let stop = layer_stop(cs, i);
        cs.subrange(from, i) + f(layer_name(cs[i]), cs.subrange(i, stop)) + mapped_from(
            cs,
            f,
            stop,
        )
    }
}

#[via_fn]
proof fn mapped_from_decreases(
    cs: Seq<CommandModel>,
    f: spec_fn(Seq<char>, Seq<CommandModel>) -> Seq<CommandModel>,
    from: int,
) {
    let i = find_kind(cs, CommandType::LayerStart, from);
    lemma_find_kind(cs, CommandType::LayerStart, from);
    lemma_find_kind(cs, CommandType::LayerEnd, i);
}

/// The commands with a range of them replaced.
pub open spec fn spliced(
    cs: Seq<CommandModel>,
    start: int,
    end: int,
    new: Seq<CommandModel>,
) -> Seq<CommandModel> {
    cs.subrange(0, start) + new + cs.subrange(end, cs.len() as int)
}

fn push_copies(out: &mut Vec<OpNode>, ops: &Ops, start: usize, end: usize)
    requires
        start <= end <= ops@.commands.len(),
    ensures
        command_views(final(out)@) == command_views(old(out)@) + ops@.commands.subrange(
            start as int,
            end as int,
        ),
{
    let mut k: usize = start;
    proof {
        assert(ops@.commands.subrange(start as int, start as int) =~= Seq::empty());
        assert(command_views(old(out)@) + Seq::<CommandModel>::empty() =~= command_views(
            old(out)@,
        ));
    }
    while k < end
        invariant
            start <= k <= end <= ops@.commands.len(),
            command_views(out@) == command_views(old(out)@) + ops@.commands.subrange(
                start as int,
                k as int,
            ),
        decreases end - k,
    {
        let ghost before = out@;
        let node = ops.commands[k].clone();
        out.push(node);
        proof {
            assert(command_views(out@) =~= command_views(before).push(node@));
            assert(command_views(out@) =~= command_views(old(out)@) + ops@.commands.subrange(
                start as int,
                k + 1,
            ));
        }
        k += 1;
    }
}

impl PyOps {
    /// The first layer that starts at an index from `from` on.
    pub fn next_layer(&self, from: usize) -> (r: Option<LayerSpan>)
        requires
            from <= self@.commands.len(),
        ensures
            ({
                let start = find_kind(self@.commands, CommandType::LayerStart, from as int);
                match r {
                    Some(span) => {
                        &&& start < self@.commands.len()
                        &&& span.start == start
                        &&& span.end == layer_stop(self@.commands, start)
                        &&& span.uid@ == layer_name(self@.commands[start])
                        &&& from <= span.start < span.end <= self@.commands.len()
                    },
                    None => start == self@.commands.len(),
                }
            }),
            match r {
                Some(span) => {
                    &&& self@.commands[span.start as int] == CommandModel::Marker(
                        MarkerModel::LayerStart(span.uid@),
                    )
                    &&& forall|m: int|
                        from <= m < span.start ==> !starts_layer(#[trigger] self@.commands[m])
                    &&& forall|m: int|
                        span.start <= m < span.end - 1 ==> !ends_layer(
                            #[trigger] self@.commands[m],
                        )
                    &&& ends_layer(self@.commands[span.end - 1]) || span.end
                        == self@.commands.len()
                },
                None => forall|m: int|
                    from <= m < self@.commands.len() ==> !starts_layer(
                        #[trigger] self@.commands[m],
                    ),
            },
    {
        let start: usize = find_command(&self.inner, CommandType::LayerStart, from);
        proof {
            lemma_find_kind(self@.commands, CommandType::LayerStart, from as int);
            lemma_find_kind(self@.commands, CommandType::LayerEnd, start as int);
        }
        if start >= self.inner.len() {
            return None;
        }
        let last: usize = find_command(&self.inner, CommandType::LayerEnd, start);
        let end: usize = if last < self.inner.len() {
            last + 1
        } else {
            last
        };
        match &self.inner.commands[start].category {
            OpCategory::Marker(MarkerCmd::LayerStart(uid)) => Some(
                LayerSpan { uid: uid.clone(), start, end },
            ),
            _ => None,
        }
    }

    /// Puts the commands of a layer in the place of those from `start` up to, not including,
    /// `end`. Returns the index behind them, from which the search for the next layer goes on.
    pub fn replace_layer(&mut self, start: usize, end: usize, layer: &PyOps) -> (r: usize)
        requires
            start <= end <= old(self)@.commands.len(),
        ensures
            final(self)@ == old(self)@.with_commands(
                spliced(old(self)@.commands, start as int, end as int, layer@.commands),
            ),
            r == start + layer@.commands.len(),
            r <= final(self)@.commands.len(),
    {
        let ghost cs = self@.commands;
        let mut commands: Vec<OpNode> = Vec::new();
        push_copies(&mut commands, &self.inner, 0, start);
        push_copies(&mut commands, &layer.inner, 0, layer.inner.len());
        let next: usize = commands.len();
        proof {
            let whole = layer@.commands.subrange(0, layer@.commands.len() as int);
            assert(whole =~= layer@.commands);
            assert(command_views(commands@).len() == commands@.len());
        }
        push_copies(&mut commands, &self.inner, end, self.inner.len());
        self.inner.commands = commands;
        self.inner.time_dirty = true;
        proof {
            assert(self@.commands =~= spliced(cs, start as int, end as int, layer@.commands));
        }
        next
    }

    /// Ends a rewriting of the sequence: the cached execution time no longer holds.
    pub fn finish_rewrite(&mut self)
        ensures
            final(self)@ == (OpsModel { time_dirty: true, ..old(self)@ }),
    {
        self.inner.invalidate_time_cache();
    }
}

/// What a search finds depends only on the commands from where it starts.
pub proof fn lemma_find_suffix(
    a: Seq<CommandModel>,
    x: int,
    b: Seq<CommandModel>,
    y: int,
    kind: CommandType,
)
    requires
        0 <= x <= a.len(),
        0 <= y <= b.len(),
        a.subrange(x, a.len() as int) == b.subrange(y, b.len() as int),
    ensures
        find_kind(a, kind, x) - x == find_kind(b, kind, y) - y,
    decreases a.len() - x,
{
    let n = a.len() as int;
    let m = b.len() as int;
    assert(a.subrange(x, n).len() == b.subrange(y, m).len());
    if x < n {
        assert(a.subrange(x, n)[0] == b.subrange(y, m)[0]);
        assert(a[x] == b[y]);
        assert(a.subrange(x + 1, n) =~= a.subrange(x, n).drop_first());
        assert(b.subrange(y + 1, m) =~= b.subrange(y, m).drop_first());
        lemma_find_suffix(a, x + 1, b, y + 1, kind);
    }
}

/// Equal commands from two places on stay equal behind as many more.
pub proof fn lemma_suffix_shift(a: Seq<CommandModel>, x: int, b: Seq<CommandModel>, y: int, d: int)
    requires
        0 <= x <= a.len(),
        0 <= y <= b.len(),
        0 <= d <= a.len() - x,
        a.subrange(x, a.len() as int) == b.subrange(y, b.len() as int),
    ensures
        a.len() - x == b.len() - y,
        a.subrange(x + d, a.len() as int) == b.subrange(y + d, b.len() as int),
        a.subrange(x, x + d) == b.subrange(y, y + d),
        d < a.len() - x ==> a[x + d] == b[y + d],
{
    let n = a.len() as int;
    let m = b.len() as int;
    let sa = a.subrange(x, n);
    let sb = b.subrange(y, m);
    assert(sa.len() == sb.len());
    assert(a.subrange(x + d, n) =~= sa.subrange(d, sa.len() as int));
    assert(b.subrange(y + d, m) =~= sb.subrange(d, sb.len() as int));
    assert(a.subrange(x, x + d) =~= sa.subrange(0, d));
    assert(b.subrange(y, y + d) =~= sb.subrange(0, d));
    if d < a.len() - x {
        assert(sa[d] == sb[d]);
    }
}

/// What becomes of the layers depends only on the commands from where the rewriting starts.
proof fn lemma_mapped_suffix(
    a: Seq<CommandModel>,
    x: int,
    b: Seq<CommandModel>,
    y: int,
    f: spec_fn(Seq<char>, Seq<CommandModel>) -> Seq<CommandModel>,
)
    requires
        0 <= x <= a.len(),
        0 <= y <= b.len(),
        a.subrange(x, a.len() as int) == b.subrange(y, b.len() as int),
    ensures
        mapped_from(a, f, x) == mapped_from(b, f, y),
    decreases a.len() - x,
{
    lemma_suffix_shift(a, x, b, y, 0);
    lemma_find_suffix(a, x, b, y, CommandType::LayerStart);
    let i = find_kind(a, CommandType::LayerStart, x);
    let k = find_kind(b, CommandType::LayerStart, y);
    lemma_find_kind(a, CommandType::LayerStart, x);
    if i < a.len() {
        lemma_suffix_shift(a, x, b, y, i - x);
        lemma_find_suffix(a, i, b, k, CommandType::LayerEnd);
        lemma_find_kind(a, CommandType::LayerEnd, i);
        let s = layer_stop(a, i);
        let t = layer_stop(b, k);
        assert(s - i == t - k);
        lemma_suffix_shift(a, i, b, k, s - i);
        lemma_mapped_suffix(a, s, b, t, f);
    }
}

/// One round of a rewriting, in which the next layer is replaced by what `f` makes of it, keeps
/// what the whole comes to: the commands already passed, followed by the others with their
/// layers replaced. What was put in is not searched again, and fewer commands are left.
pub proof fn law_layer_round(
    cs: Seq<CommandModel>,
    f: spec_fn(Seq<char>, Seq<CommandModel>) -> Seq<CommandModel>,
    from: int,
)
    requires
        0 <= from <= cs.len(),
        find_kind(cs, CommandType::LayerStart, from) < cs.len(),
    ensures
        ({
            let start = find_kind(cs, CommandType::LayerStart, from);
            let end = layer_stop(cs, start);
            let new = f(layer_name(cs[start]), cs.subrange(start, end));
            let after = spliced(cs, start, end, new);
            let next = start + new.len();
            &&& next <= after.len()
            &&& after.len() - next < cs.len() - from
            &&& after.subrange(0, next) + mapped_from(after, f, next) == cs.subrange(0, from)
                + mapped_from(cs, f, from)
        }),
{
    let start = find_kind(cs, CommandType::LayerStart, from);
    lemma_find_kind(cs, CommandType::LayerStart, from);
    lemma_find_kind(cs, CommandType::LayerEnd, start);
    let end = layer_stop(cs, start);
    let new = f(layer_name(cs[start]), cs.subrange(start, end));
    let after = spliced(cs, start, end, new);
    let next = start + new.len();
    assert(after.subrange(next, after.len() as int) =~= cs.subrange(end, cs.len() as int));
    lemma_mapped_suffix(after, next, cs, end, f);
    assert(after.subrange(0, next) =~= cs.subrange(0, from) + cs.subrange(from, start) + new);
    assert(mapped_from(cs, f, from) == cs.subrange(from, start) + new + mapped_from(cs, f, end));
    assert(after.subrange(0, next) + mapped_from(after, f, next) =~= cs.subrange(0, from)
        + mapped_from(cs, f, from));
}

/// Once no layer is left, the commands are what the whole comes to.
pub proof fn law_layers_done(
    cs: Seq<CommandModel>,
    f: spec_fn(Seq<char>, Seq<CommandModel>) -> Seq<CommandModel>,
    from: int,
)
    requires
        0 <= from <= cs.len(),
        find_kind(cs, CommandType::LayerStart, from) == cs.len(),
    ensures
        cs.subrange(0, from) + mapped_from(cs, f, from) == cs,
{
    assert(cs.subrange(0, from) + cs.subrange(from, cs.len() as int) =~= cs);
}

/// A rewriting that gives every layer back as it was changes nothing.
pub proof fn law_layers_unchanged(cs: Seq<CommandModel>, from: int)
    requires
        0 <= from <= cs.len(),
    ensures
        mapped_from(cs, |uid: Seq<char>, layer: Seq<CommandModel>| layer, from) == cs.subrange(
            from,
            cs.len() as int,
        ),
    decreases cs.len() - from,
{
    let start = find_kind(cs, CommandType::LayerStart, from);
    lemma_find_kind(cs, CommandType::LayerStart, from);
    if start < cs.len() {
        lemma_find_kind(cs, CommandType::LayerEnd, start);
        let end = layer_stop(cs, start);
        law_layers_unchanged(cs, end);
        assert(cs.subrange(from, start) + cs.subrange(start, end) + cs.subrange(
            end,
            cs.len() as int,
        ) =~= cs.subrange(from, cs.len() as int));
    }
}

/// Without a layer start, the rewriting changes nothing, whatever is made of layers.
pub proof fn law_no_layers(
    cs: Seq<CommandModel>,
    f: spec_fn(Seq<char>, Seq<CommandModel>) -> Seq<CommandModel>,
)
    requires
        forall|i: int| 0 <= i < cs.len() ==> (#[trigger] cs[i]).kind() != CommandType::LayerStart,
    ensures
        mapped_from(cs, f, 0) == cs,
{
    lemma_find_kind(cs, CommandType::LayerStart, 0);
    assert(cs.subrange(0, cs.len() as int) =~= cs);
}

/// The number of layers from index `from` on.
pub open spec fn layer_count(cs: Seq<CommandModel>, from: int) -> nat
    decreases cs.len() - from,
    when 0 <= from <= cs.len()
    via layer_count_decreases
{
    let i = find_kind(cs, CommandType::LayerStart, from);
    if i >= cs.len() {
        0
    } else {
        1 + layer_count(cs, layer_stop(cs, i))
    }
}

#[via_fn]
proof fn layer_count_decreases(cs: Seq<CommandModel>, from: int) {
    let i = find_kind(cs, CommandType::LayerStart, from);
    lemma_find_kind(cs, CommandType::LayerStart, from);
    lemma_find_kind(cs, CommandType::LayerEnd, i);
}

/// The commands from index `from` on, with every layer replaced by the reply for it. The replies
/// stand in the order of the layers, one for each.
pub open spec fn replied_from(
    cs: Seq<CommandModel>,
    replies: Seq<Seq<CommandModel>>,
    from: int,
) -> Seq<CommandModel>
    decreases cs.len() - from,
    when 0 <= from <= cs.len()
    via replied_from_decreases
{
    let i = find_kind(cs, CommandType::LayerStart, from);
    if i >= cs.len() {
        cs.subrange(from, cs.len() as int)
    } else {
        cs.subrange(from, i) + replies.first() + replied_from(
            cs,
            replies.drop_first(),
            layer_stop(cs, i),
        )
    }
}

#[via_fn]
proof fn replied_from_decreases(
    cs: Seq<CommandModel>,
    replies: Seq<Seq<CommandModel>>,
    from: int,
) {
    let i = find_kind(cs, CommandType::LayerStart, from);
    lemma_find_kind(cs, CommandType::LayerStart, from);
    lemma_find_kind(cs, CommandType::LayerEnd, i);
}

/// Which layers there are, and what replies make of them, depends only on the commands from
/// where the rewriting starts.
proof fn lemma_replied_suffix(
    a: Seq<CommandModel>,
    x: int,
    b: Seq<CommandModel>,
    y: int,
    replies: Seq<Seq<CommandModel>>,
)
    requires
        0 <= x <= a.len(),
        0 <= y <= b.len(),
        a.subrange(x, a.len() as int) == b.subrange(y, b.len() as int),
    ensures
        layer_count(a, x) == layer_count(b, y),
        replied_from(a, replies, x) == replied_from(b, replies, y),
    decreases a.len() - x,
{
    lemma_suffix_shift(a, x, b, y, 0);
    lemma_find_suffix(a, x, b, y, CommandType::LayerStart);
    let i = find_kind(a, CommandType::LayerStart, x);
    let k = find_kind(b, CommandType::LayerStart, y);
    lemma_find_kind(a, CommandType::LayerStart, x);
    if i < a.len() {
        lemma_suffix_shift(a, x, b, y, i - x);
        lemma_find_suffix(a, i, b, k, CommandType::LayerEnd);
        lemma_find_kind(a, CommandType::LayerEnd, i);
        let s = layer_stop(a, i);
        let t = layer_stop(b, k);
        assert(s - i == t - k);
        lemma_suffix_shift(a, i, b, k, s - i);
        lemma_replied_suffix(a, s, b, t, replies.drop_first());
    }
}

/// One round of a rewriting in which each layer gets a reply of its own: the next layer is
/// replaced by the first reply, and what the whole comes to stays. What was put in is not
/// searched again, one layer fewer is left, and as many replies as layers.
pub proof fn law_layer_round_replied(
    cs: Seq<CommandModel>,
    replies: Seq<Seq<CommandModel>>,
    from: int,
)
    requires
        0 <= from <= cs.len(),
        find_kind(cs, CommandType::LayerStart, from) < cs.len(),
        replies.len() == layer_count(cs, from),
    ensures
        ({
            let start = find_kind(cs, CommandType::LayerStart, from);
            let end = layer_stop(cs, start);
            let after = spliced(cs, start, end, replies.first());
            let next = start + replies.first().len();
            &&& next <= after.len()
            &&& after.len() - next < cs.len() - from
            &&& replies.drop_first().len() == layer_count(after, next)
            &&& after.subrange(0, next) + replied_from(after, replies.drop_first(), next)
                == cs.subrange(0, from) + replied_from(cs, replies, from)
        }),
{
    let start = find_kind(cs, CommandType::LayerStart, from);
    lemma_find_kind(cs, CommandType::LayerStart, from);
    lemma_find_kind(cs, CommandType::LayerEnd, start);
    let end = layer_stop(cs, start);
    let new = replies.first();
    let rest = replies.drop_first();
    let after = spliced(cs, start, end, new);
    let next = start + new.len();
    assert(after.subrange(next, after.len() as int) =~= cs.subrange(end, cs.len() as int));
    lemma_replied_suffix(after, next, cs, end, rest);
    assert(after.subrange(0, next) =~= cs.subrange(0, from) + cs.subrange(from, start) + new);
    assert(replied_from(cs, replies, from) == cs.subrange(from, start) + new + replied_from(
        cs,
        rest,
        end,
    ));
    assert(after.subrange(0, next) + replied_from(after, rest, next) =~= cs.subrange(0, from)
        + replied_from(cs, replies, from));
}

/// Once no layer is left, every reply was used and the commands are what the whole comes to.
pub proof fn law_replies_done(
    cs: Seq<CommandModel>,
    replies: Seq<Seq<CommandModel>>,
    from: int,
)
    requires
        0 <= from <= cs.len(),
        find_kind(cs, CommandType::LayerStart, from) == cs.len(),
        replies.len() == layer_count(cs, from),
    ensures
        replies.len() == 0,
        cs.subrange(0, from) + replied_from(cs, replies, from) == cs,
{
    assert(cs.subrange(0, from) + cs.subrange(from, cs.len() as int) =~= cs);
}

/// The commands after a run of rounds from index `from` on, one for each reply: the next layer
/// is replaced by the reply, and the search goes on behind what was put in.
pub open spec fn layers_replied(
    cs: Seq<CommandModel>,
    replies: Seq<Seq<CommandModel>>,
    from: int,
) -> Seq<CommandModel>
    decreases replies.len(),
{
    if replies.len() == 0 {
        cs
    } else {
        let start = find_kind(cs, CommandType::LayerStart, from);
        layers_replied(
            spliced(cs, start, layer_stop(cs, start), replies.first()),
            replies.drop_first(),
            start + replies.first().len(),
        )
    }
}

proof fn lemma_layers_replied(cs: Seq<CommandModel>, replies: Seq<Seq<CommandModel>>, from: int)
    requires
        0 <= from <= cs.len(),
        replies.len() == layer_count(cs, from),
    ensures
        layers_replied(cs, replies, from) == cs.subrange(0, from) + replied_from(cs, replies, from),
    decreases replies.len(),
{
    let start = find_kind(cs, CommandType::LayerStart, from);
    lemma_find_kind(cs, CommandType::LayerStart, from);
    if start < cs.len() {
        law_layer_round_replied(cs, replies, from);
        lemma_layers_replied(
            spliced(cs, start, layer_stop(cs, start), replies.first()),
            replies.drop_first(),
            start + replies.first().len(),
        );
    } else {
        law_replies_done(cs, replies, from);
    }
}

/// A whole rewriting, in which each layer is replaced as it comes up by the reply for it, gives
/// the commands with every layer replaced, the replies being taken in the order of the layers.
pub proof fn law_layers_completed(cs: Seq<CommandModel>, replies: Seq<Seq<CommandModel>>)
    requires
        replies.len() == layer_count(cs, 0),
    ensures
        layers_replied(cs, replies, 0) == replied_from(cs, replies, 0),
{
    lemma_layers_replied(cs, replies, 0);
    assert(cs.subrange(0, 0) + replied_from(cs, replies, 0) =~= replied_from(cs, replies, 0));
}

/// A layer reaches up to and including the first layer end behind its start, or to the last
/// command if there is none; no other kind of command bounds it.
pub proof fn law_layer_span(cs: Seq<CommandModel>, start: int)
    requires
        0 <= start < cs.len(),
        starts_layer(cs[start]),
    ensures
        ({
            let end = layer_stop(cs, start);
            &&& start < end <= cs.len()
            &&& forall|m: int| start <= m < end - 1 ==> !ends_layer(#[trigger] cs[m])
            &&& ends_layer(cs[end - 1]) || end == cs.len()
            &&& end < cs.len() ==> ends_layer(cs[end - 1])
            &&& (exists|m: int| start < m < cs.len() && ends_layer(#[trigger] cs[m]))
                ==> ends_layer(cs[end - 1])
        }),
{
    lemma_find_kind(cs, CommandType::LayerEnd, start);
}

/// Replacing a range keeps the commands before it and behind it, in order, and puts the others
/// in between.
pub proof fn law_spliced(cs: Seq<CommandModel>, start: int, end: int, new: Seq<CommandModel>)
    requires
        0 <= start <= end <= cs.len(),
    ensures
        ({
            let r = spliced(cs, start, end, new);
            &&& r.len() == cs.len() - (end - start) + new.len()
            &&& forall|k: int| 0 <= k < start ==> #[trigger] r[k] == cs[k]
            &&& forall|k: int| 0 <= k < new.len() ==> r[start + k] == #[trigger] new[k]
            &&& forall|k: int|
                end <= k < cs.len() ==> r[k - end + start + new.len()] == #[trigger] cs[k]
        }),
{
}

proof fn lemma_find_at(cs: Seq<CommandModel>, kind: CommandType, from: int, at: int)
    requires
        0 <= from <= at <= cs.len(),
        at < cs.len() ==> cs[at].kind() == kind,
        forall|m: int| from <= m < at ==> (#[trigger] cs[m]).kind() != kind,
    ensures
        find_kind(cs, kind, from) == at,
    decreases at - from,
{
    if from < at {
        assert(cs[from].kind() != kind);
        lemma_find_at(cs, kind, from + 1, at);
    }
}

/// How a rewriting takes a sequence apart: what precedes the first layer stays, the layer from
/// its start up to and including its end becomes the reply for it, and the rest is rewritten
/// with the other replies.
pub proof fn law_layers_by_parts(
    before: Seq<CommandModel>,
    uid: Seq<char>,
    inside: Seq<CommandModel>,
    end_uid: Seq<char>,
    rest: Seq<CommandModel>,
    replies: Seq<Seq<CommandModel>>,
    f: spec_fn(Seq<char>, Seq<CommandModel>) -> Seq<CommandModel>,
)
    requires
        forall|m: int| 0 <= m < before.len() ==> !starts_layer(#[trigger] before[m]),
        forall|m: int| 0 <= m < inside.len() ==> !ends_layer(#[trigger] inside[m]),
        replies.len() > 0,
    ensures
        ({
            let layer = seq![CommandModel::Marker(MarkerModel::LayerStart(uid))] + inside
                + seq![CommandModel::Marker(MarkerModel::LayerEnd(end_uid))];
            let cs = before + layer + rest;
            &&& layer_count(cs, 0) == 1 + layer_count(rest, 0)
            &&& replied_from(cs, replies, 0) == before + replies.first() + replied_from(
                rest,
                replies.drop_first(),
                0,
            )
            &&& mapped_from(cs, f, 0) == before + f(uid, layer) + mapped_from(rest, f, 0)
        }),
{
    let first = CommandModel::Marker(MarkerModel::LayerStart(uid));
    let last = CommandModel::Marker(MarkerModel::LayerEnd(end_uid));
    let layer = seq![first] + inside + seq![last];
    let cs = before + layer + rest;
    let n = cs.len() as int;
    let start = before.len() as int;
    let end = start + layer.len();
    assert(cs[start] == first);
    assert(cs[end - 1] == last);
    assert forall|m: int| 0 <= m < start implies (#[trigger] cs[m]).kind()
        != CommandType::LayerStart by {
        assert(!starts_layer(before[m]));
    }
    assert forall|m: int| start <= m < end - 1 implies (#[trigger] cs[m]).kind()
        != CommandType::LayerEnd by {
        if m > start {
            assert(cs[m] == inside[m - start - 1]);
        }
    }
    lemma_find_at(cs, CommandType::LayerStart, 0, start);
    lemma_find_at(cs, CommandType::LayerEnd, start, end - 1);
    assert(layer_stop(cs, start) == end);
    assert(cs.subrange(0, start) =~= before);
    assert(cs.subrange(start, end) =~= layer);
    assert(cs.subrange(end, n) =~= rest);
    assert(rest.subrange(0, rest.len() as int) =~= rest);
    lemma_replied_suffix(cs, end, rest, 0, replies.drop_first());
    lemma_mapped_suffix(cs, end, rest, 0, f);
}

/// A layer that does not end reaches to the last command, and becomes the reply for it.
pub proof fn law_open_layer(
    before: Seq<CommandModel>,
    uid: Seq<char>,
    inside: Seq<CommandModel>,
    replies: Seq<Seq<CommandModel>>,
    f: spec_fn(Seq<char>, Seq<CommandModel>) -> Seq<CommandModel>,
)
    requires
        forall|m: int| 0 <= m < before.len() ==> !starts_layer(#[trigger] before[m]),
        forall|m: int| 0 <= m < inside.len() ==> !ends_layer(#[trigger] inside[m]),
        replies.len() > 0,
    ensures
        ({
            let layer = seq![CommandModel::Marker(MarkerModel::LayerStart(uid))] + inside;
            let cs = before + layer;
            &&& layer_count(cs, 0) == 1
            &&& replied_from(cs, replies, 0) == before + replies.first()
            &&& mapped_from(cs, f, 0) == before + f(uid, layer)
        }),
{
    let first = CommandModel::Marker(MarkerModel::LayerStart(uid));
    let layer = seq![first] + inside;
    let cs = before + layer;
    let n = cs.len() as int;
    let start = before.len() as int;
    let rest = Seq::<CommandModel>::empty();
    assert(cs[start] == first);
    assert forall|m: int| 0 <= m < start implies (#[trigger] cs[m]).kind()
        != CommandType::LayerStart by {
        assert(!starts_layer(before[m]));
    }
    assert forall|m: int| start <= m < n implies (#[trigger] cs[m]).kind()
        != CommandType::LayerEnd by {
        if m > start {
            assert(cs[m] == inside[m - start - 1]);
        }
    }
    lemma_find_at(cs, CommandType::LayerStart, 0, start);
    lemma_find_at(cs, CommandType::LayerEnd, start, n);
    assert(layer_stop(cs, start) == n);
    assert(cs.subrange(0, start) =~= before);
    assert(cs.subrange(start, n) =~= layer);
    assert(cs.subrange(n, n) =~= rest);
    assert(find_kind(cs, CommandType::LayerStart, n) == n);
    assert(layer_count(cs, n) == 0);
    assert(replied_from(cs, replies.drop_first(), n) == rest);
    assert(mapped_from(cs, f, n) == rest);
    assert(before + replies.first() + rest =~= before + replies.first());
    assert(before + f(uid, layer) + rest =~= before + f(uid, layer));
}

/// Commands among which no layer starts stay as they are, whatever the replies.
pub proof fn law_outside_layers(
    cs: Seq<CommandModel>,
    replies: Seq<Seq<CommandModel>>,
    f: spec_fn(Seq<char>, Seq<CommandModel>) -> Seq<CommandModel>,
)
    requires
        forall|m: int| 0 <= m < cs.len() ==> !starts_layer(#[trigger] cs[m]),
    ensures
        layer_count(cs, 0) == 0,
        replied_from(cs, replies, 0) == cs,
        mapped_from(cs, f, 0) == cs,
{
    assert forall|m: int| 0 <= m < cs.len() implies (#[trigger] cs[m]).kind()
        != CommandType::LayerStart by {
        assert(!starts_layer(cs[m]));
    }
    lemma_find_at(cs, CommandType::LayerStart, 0, cs.len() as int);
    assert(cs.subrange(0, cs.len() as int) =~= cs);
}

} // verus!
