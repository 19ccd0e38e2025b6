//! Choosing the peers that a newly learned value is forwarded to, and the
//! messages that forward it.
use crate::message::{Body, Fields, Message, Type};
use rand::Rng;
use vstd::prelude::*;

verus! {

/// The identifiers of `ids`, as character sequences.
pub open spec fn ids_view(ids: Seq<String>) -> Seq<Seq<char>> {
    ids.map_values(|s: String| s@)
}

/// The peer that a draw of position `i` lands on: the roster entry there, or
/// the next one (wrapping round) when the entry there is `me`.
pub open spec fn landed_on(roster: Seq<Seq<char>>, me: Seq<char>, i: int) -> Seq<char>
    recommends
        0 <= i < roster.len(),
{
    if roster[i] == me {
        roster[(i + 1) % (roster.len() as int)]
    } else {
        roster[i]
    }
}

/// The targets that a sequence of draws selects: each draw, taken modulo the
/// roster's size, lands on a peer, which is kept unless it is `me` or was
/// already selected.
pub open spec fn selected(roster: Seq<Seq<char>>, me: Seq<char>, draws: Seq<usize>) -> Seq<
    Seq<char>,
>
    decreases draws.len(),
{
    if draws.len() == 0 || roster.len() == 0 {
        Seq::empty()
    } else {
        let prev = selected(roster, me, draws.drop_last());
        let c = landed_on(roster, me, draws.last() as int % roster.len() as int);
        if c == me || prev.contains(c) {
            prev
        } else {
            prev.push(c)
        }
    }
}

/// A gossip target list: distinct roster members other than `me`, at most
/// `k` of them.
pub open spec fn valid_targets(roster: Seq<Seq<char>>, me: Seq<char>, t: Seq<Seq<char>>, k: nat) -> bool {
    &&& t.no_duplicates()
    &&& t.len() <= k
    &&& forall|i: int| 0 <= i < t.len() ==> #[trigger] t[i] != me && roster.contains(t[i])
}

/// The forwarding message from `me` to `dest` for `value`: a bare `broadcast`
/// with no identifier, as nothing answers it.
pub open spec fn forward(me: String, dest: String, value: u64) -> Message {
    Message {
        src: me,
        dest,
        body: Body {
            msg_type: Type::Broadcast,
            id: None,
            in_reply_to: None,
            fields: Fields::Message(value),
        },
    }
}

/// The messages of one round: one forward of `value` to each target, in order.
pub open spec fn forwards(me: String, targets: Seq<String>, value: u64) -> Seq<Message> {
    targets.map_values(|t: String| forward(me, t, value))
}

/// A round of gossip for `value` from node `me` with roster `roster` and
/// fanout `k`: forwards to the valid targets that `k` draws select.
pub open spec fn gossip_round(
    me: String,
    roster: Seq<String>,
    k: nat,
    value: u64,
    out: Seq<Message>,
) -> bool {
    &&& forall|i: int| 0 <= i < out.len() ==> #[trigger] out[i] == forward(me, out[i].dest, value)
    &&& valid_targets(
        ids_view(roster),
        me@,
        ids_view(out.map_values(|m: Message| m.dest)),
        k,
    )
    &&& exists|draws: Seq<usize>|
        draws.len() == k && #[trigger] selected(ids_view(roster), me@, draws) == ids_view(
            out.map_values(|m: Message| m.dest),
        )
}

/// Selection keeps its promises whatever the draws were.
pub proof fn lemma_selected_valid(roster: Seq<Seq<char>>, me: Seq<char>, draws: Seq<usize>)
    ensures
        valid_targets(roster, me, selected(roster, me, draws), draws.len()),
    decreases draws.len(),
{
    if draws.len() == 0 || roster.len() == 0 {
    } else {
        let prev = selected(roster, me, draws.drop_last());
        lemma_selected_valid(roster, me, draws.drop_last());
        let i = draws.last() as int % roster.len() as int;
        let c = landed_on(roster, me, i);
        assert(roster.contains(c)) by {
            if roster[i] == me {
                assert(roster[(i + 1) % roster.len() as int] == c);
            } else {
                assert(roster[i] == c);
            }
        }
        if !(c == me || prev.contains(c)) {
            let cur = prev.push(c);
            assert forall|a: int, b: int| 0 <= a < b < cur.len() implies cur[a] != cur[b] by {
                if b == cur.len() - 1 {
                    assert(prev[a] == cur[a]);
                }
            }
            assert forall|j: int| 0 <= j < cur.len() implies #[trigger] cur[j] != me
                && roster.contains(cur[j]) by {
                if j < prev.len() {
                    assert(cur[j] == prev[j]);
                }
            }
        }
    }
}

/// Whether `ids` holds an identifier equal to `id`.
fn holds_id(ids: &Vec<String>, id: &String) -> (r: bool)
    ensures
        r == ids_view(ids@).contains(id@),
{
    let mut i: usize = 0;
    while i < ids.len()
        invariant
            i <= ids.len(),
            forall|j: int| 0 <= j < i ==> ids@[j]@ != id@,
        decreases ids.len() - i,
    {
        if ids[i] == *id {
            assert(ids_view(ids@)[i as int] == id@);
            return true;
        }
        i = i + 1;
    }
    assert forall|j: int| 0 <= j < ids_view(ids@).len() implies ids_view(ids@)[j] != id@ by {
        assert(ids_view(ids@)[j] == ids@[j]@);
    }
    false
}

/// The targets that `draws` select from `roster` for node `me`; each draw is
/// taken modulo the roster's size.
pub fn select_targets(roster: &Vec<String>, me: &String, draws: &Vec<usize>) -> (r: Vec<String>)
    ensures
        ids_view(r@) == selected(ids_view(roster@), me@, draws@),
{
    let ghost ros = ids_view(roster@);
    let mut targets: Vec<String> = Vec::new();
    let n = roster.len();
    if n == 0 {
        return targets;
    }
    let mut j: usize = 0;
    while j < draws.len()
        invariant
            n == roster.len(),
            n > 0,
            j <= draws.len(),
            ros == ids_view(roster@),
            ids_view(targets@) == selected(ros, me@, draws@.take(j as int)),
        decreases draws.len() - j,
    {
        let i = draws[j] % n;
        let mut candidate = roster[i].clone();
        if candidate == *me {
            candidate = roster[(i + 1) % n].clone();
        }
        let ghost before = ids_view(targets@);
        assert(draws@.take(j + 1).drop_last() =~= draws@.take(j as int));
        assert(candidate@ == landed_on(ros, me@, draws@.take(j + 1).last() as int % n as int));
        if !(candidate == *me) && !holds_id(&targets, &candidate) {
            targets.push(candidate);
            assert(ids_view(targets@) =~= before.push(candidate@));
        }
        j = j + 1;
    }
    assert(draws@.take(draws.len() as int) =~= draws@);
    targets
}

/// Relies on rand's `thread_rng().gen_range(0..n)`: a value drawn from `0..n`,
/// which is never empty here.
#[verifier::external_body]
fn draw_index(n: usize) -> (r: usize)
    requires
        n > 0,
    ensures
        r < n,
{
    rand::thread_rng().gen_range(0..n)
}

/// Draws `k` random roster positions (none when the roster is empty) and
/// selects the targets they land on.
pub fn pick_targets(roster: &Vec<String>, me: &String, k: u8) -> (r: Vec<String>)
    ensures
        exists|draws: Seq<usize>|
            draws.len() == k && ids_view(r@) == #[trigger] selected(ids_view(roster@), me@, draws),
        valid_targets(ids_view(roster@), me@, ids_view(r@), k as nat),
{
    let mut draws: Vec<usize> = Vec::new();
    let n = roster.len();
    if n > 0 {
        let mut c: u8 = 0;
        while c < k
            invariant
                c <= k,
                draws@.len() == c,
                n == roster.len(),
                n > 0,
            decreases k - c,
        {
            draws.push(draw_index(n));
            c = c + 1;
        }
    }
    let r = select_targets(roster, me, &draws);
    proof {
        lemma_selected_valid(ids_view(roster@), me@, draws@);
        if n == 0 {
            let none = Seq::new(k as nat, |i: int| 0usize);
            assert(selected(ids_view(roster@), me@, none) == ids_view(r@));
        } else {
            assert(selected(ids_view(roster@), me@, draws@) == ids_view(r@));
        }
    }
    r
}

/// The forwards of `value` from `me` to each of `targets`.
pub fn forward_all(me: &String, targets: Vec<String>, value: u64) -> (r: Vec<Message>)
    ensures
        r@ == forwards(*me, targets@, value),
{
    let mut out: Vec<Message> = Vec::new();
    let mut i: usize = 0;
    while i < targets.len()
        invariant
            i <= targets.len(),
            out@ == forwards(*me, targets@.take(i as int), value),
        decreases targets.len() - i,
    {
        let m = Message {
            src: me.clone(),
            dest: targets[i].clone(),
            body: Body {
                msg_type: Type::Broadcast,
                id: None,
                in_reply_to: None,
                fields: Fields::Message(value),
            },
        };
        out.push(m);
        assert(forwards(*me, targets@.take(i + 1), value) =~= forwards(
            *me,
            targets@.take(i as int),
            value,
        ).push(m));
        i = i + 1;
    }
    assert(targets@.take(targets.len() as int) =~= targets@);
    out
}

} // verus!
