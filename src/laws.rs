use vstd::prelude::*;

use crate::contract::step;
use crate::msg::{ids_view, ExecuteMsg};
use crate::state::{
    add_model, batch_hits, batch_model, has_id, ids_of, index_of, is_first_match,
    lemma_first_match, lemma_has_first, serve_model, RegistryModel,
};

verus! {

/// The registry after running the commands in order, starting from `m`.
pub open spec fn run(m: RegistryModel, msgs: Seq<ExecuteMsg>) -> RegistryModel
    decreases msgs.len(),
{
    if msgs.len() == 0 {
        m
    } else {
        run(step(m, msgs[0]), msgs.drop_first())
    }
}

/// The id that an add, serve or delete command names.
pub open spec fn command_id(msg: ExecuteMsg) -> Seq<char> {
    match msg {
        ExecuteMsg::AddAd { id, .. } => id@,
        ExecuteMsg::ServeAd { id } => id@,
        ExecuteMsg::DeleteAd { id } => id@,
        ExecuteMsg::BatchServeAds { .. } => Seq::empty(),
    }
}

/// The number of impressions that one command counts.
pub open spec fn serves(m: RegistryModel, msg: ExecuteMsg) -> nat {
    match msg {
        ExecuteMsg::ServeAd { id } => if has_id(m.ads, id@) {
            1
        } else {
            0
        },
        ExecuteMsg::BatchServeAds { ids } => batch_hits(m, ids_view(ids@)),
        _ => 0,
    }
}

/// The number of impressions counted over a run of commands.
pub open spec fn run_serves(m: RegistryModel, msgs: Seq<ExecuteMsg>) -> nat
    decreases msgs.len(),
{
    if msgs.len() == 0 {
        0
    } else {
        serves(m, msgs[0]) + run_serves(step(m, msgs[0]), msgs.drop_first())
    }
}

/// Persisting the registry after some commands and resuming from that value
/// ends in the same registry as running every command on one held value.
pub proof fn lemma_replay_from_saved(m: RegistryModel, a: Seq<ExecuteMsg>, b: Seq<ExecuteMsg>)
    ensures
        run(m, a + b) == run(run(m, a), b),
    decreases a.len(),
{
    if a.len() == 0 {
        assert(a + b =~= b);
    } else {
        assert((a + b).drop_first() =~= a.drop_first() + b);
        assert((a + b)[0] == a[0]);
        lemma_replay_from_saved(step(m, a[0]), a.drop_first(), b);
    }
}

/// Adding ads with fresh, distinct ids lists exactly the old ids followed by
/// the new ones, in the order they were added.
pub proof fn lemma_adds_in_order(m: RegistryModel, msgs: Seq<ExecuteMsg>)
    requires
        forall|i: int| 0 <= i < msgs.len() ==> #[trigger] msgs[i] is AddAd,
        forall|i: int, j: int|
            0 <= i < j < msgs.len() ==> command_id(#[trigger] msgs[i]) != command_id(
                #[trigger] msgs[j],
            ),
        forall|i: int| 0 <= i < msgs.len() ==> !has_id(m.ads, command_id(#[trigger] msgs[i])),
    ensures
        ids_of(run(m, msgs).ads) == ids_of(m.ads) + msgs.map_values(
            |c: ExecuteMsg| command_id(c),
        ),
    decreases msgs.len(),
{
    let all_ids = msgs.map_values(|c: ExecuteMsg| command_id(c));
    if msgs.len() == 0 {
        assert(ids_of(m.ads) + all_ids =~= ids_of(m.ads));
    } else {
        let c = msgs[0];
        assert(c is AddAd);
        let id = command_id(c);
        let m1 = step(m, c);
        let rest = msgs.drop_first();
        assert(m1.ads.len() == m.ads.len() + 1);
        assert(m1.ads.drop_last() =~= m.ads);
        assert(m1.ads.last().id == id);
        assert forall|i: int| 0 <= i < rest.len() implies #[trigger] rest[i] is AddAd by {
            assert(rest[i] == msgs[i + 1]);
        }
        assert forall|i: int, j: int| 0 <= i < j < rest.len() implies command_id(
            #[trigger] rest[i],
        ) != command_id(#[trigger] rest[j]) by {
            assert(rest[i] == msgs[i + 1] && rest[j] == msgs[j + 1]);
        }
        assert forall|i: int| 0 <= i < rest.len() implies !has_id(
            m1.ads,
            command_id(#[trigger] rest[i]),
        ) by {
            let x = command_id(rest[i]);
            assert(rest[i] == msgs[i + 1]);
            assert(command_id(msgs[0]) != command_id(msgs[i + 1]));
            if has_id(m1.ads, x) {
                let k = choose|k: int| 0 <= k < m1.ads.len() && #[trigger] m1.ads[k].id == x;
                if k < m.ads.len() {
                    assert(m.ads[k].id == x);
                }
            }
        }
        lemma_adds_in_order(m1, rest);
        assert(ids_of(m1.ads) =~= ids_of(m.ads).push(id));
        assert(ids_of(m1.ads) + rest.map_values(|c: ExecuteMsg| command_id(c)) =~= ids_of(m.ads)
            + all_ids);
    }
}

/// A batch raises the counter by the number of its ids that found an ad.
proof fn lemma_batch_total(m: RegistryModel, ids: Seq<Seq<char>>)
    ensures
        batch_model(m, ids).total_views == m.total_views + batch_hits(m, ids),
    decreases ids.len(),
{
    if ids.len() > 0 {
        lemma_batch_total(m, ids.drop_last());
    }
}

/// Over any run of commands the counter grows by exactly the number of
/// impressions served, whether or not the served ads are deleted later.
pub proof fn lemma_total_counts_serves(m: RegistryModel, msgs: Seq<ExecuteMsg>)
    ensures
        run(m, msgs).total_views == m.total_views + run_serves(m, msgs),
    decreases msgs.len(),
{
    if msgs.len() > 0 {
        if let ExecuteMsg::BatchServeAds { ids } = msgs[0] {
            lemma_batch_total(m, ids_view(ids@));
        }
        lemma_total_counts_serves(step(m, msgs[0]), msgs.drop_first());
    }
}

/// One serve keeps every id in place and raises the served ad's counter by one.
proof fn lemma_serve_in_place(m: RegistryModel, id: Seq<char>)
    requires
        has_id(m.ads, id),
    ensures
        ids_of(serve_model(m, id).ads) == ids_of(m.ads),
        has_id(serve_model(m, id).ads, id),
        index_of(serve_model(m, id).ads, id) == index_of(m.ads, id),
        serve_model(m, id).ads[index_of(m.ads, id)].views == m.ads[index_of(m.ads, id)].views + 1,
{
    lemma_has_first(m.ads, id);
    let i = index_of(m.ads, id);
    let after = serve_model(m, id).ads;
    assert(ids_of(after) =~= ids_of(m.ads));
    assert(is_first_match(after, id, i)) by {
        assert forall|j: int| 0 <= j < i implies #[trigger] after[j].id != id by {
            assert(m.ads[j].id != id);
        }
    }
    lemma_first_match(after, id, i);
}

/// A batch that names a known ad twice and an unknown id once serves the
/// known ad twice, raises the counter by two, and fails on nothing.
pub proof fn lemma_batch_repeat_and_unknown(m: RegistryModel, a: Seq<char>, b: Seq<char>)
    requires
        has_id(m.ads, a),
        !has_id(m.ads, b),
    ensures
        ids_of(batch_model(m, seq![a, a, b]).ads) == ids_of(m.ads),
        batch_model(m, seq![a, a, b]).ads[index_of(m.ads, a)].views == m.ads[index_of(
            m.ads,
            a,
        )].views + 2,
        batch_model(m, seq![a, a, b]).total_views == m.total_views + 2,
{
    let ids = seq![a, a, b];
    assert(ids.drop_last() =~= seq![a, a]);
    assert(seq![a, a].drop_last() =~= seq![a]);
    assert(seq![a].drop_last() =~= Seq::<Seq<char>>::empty());
    assert(batch_model(m, Seq::empty()) == m);
    let m1 = batch_model(m, seq![a]);
    assert(m1 == serve_model(m, a));
    lemma_serve_in_place(m, a);
    let m2 = batch_model(m, seq![a, a]);
    assert(m2 == serve_model(m1, a));
    lemma_serve_in_place(m1, a);
    assert(!has_id(m2.ads, b)) by {
        if has_id(m2.ads, b) {
            let k = choose|k: int| 0 <= k < m2.ads.len() && #[trigger] m2.ads[k].id == b;
            assert(ids_of(m2.ads) == ids_of(m.ads));
            assert(ids_of(m2.ads).len() == m2.ads.len());
            assert(ids_of(m.ads).len() == m.ads.len());
            assert(ids_of(m2.ads)[k] == m2.ads[k].id);
            assert(ids_of(m.ads)[k] == m.ads[k].id);
            assert(m.ads[k].id == b);
        }
    }
    assert(batch_model(m, ids) == m2);
}

} // verus!
