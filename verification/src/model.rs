//! The mathematical model of the registry.
//!
//! Every contract of the library is stated over these values: a poll is a
//! `PollModel`, its tally a `Map` from credential to answer index, and the
//! whole registry a `Map` from authority to the ordered sequence of its
//! polls.  The lemmas at the end relate the executable representation
//! (vectors of key/value pairs) to these maps.

use vstd::prelude::*;

use crate::contract::{Contract, Group, Vote, VoteOutModel};

verus! {

/// The value of one poll record: every field of the executable record,
/// with text as character sequences and the tally as a map.
#[verifier::ext_equal]
pub struct PollModel {
    pub nft_contract_id: Seq<char>,
    pub owner_id: Seq<char>,
    pub name: Seq<char>,
    pub description: Seq<char>,
    pub meta: Seq<char>,
    pub status: u8,
    pub answers: Seq<Seq<char>>,
    pub votes: Map<Seq<char>, u8>,
}

/// The value of the whole registry: authority to its ordered polls.
pub type RegModel = Map<Seq<char>, Seq<PollModel>>;

/// The tally held by a sequence of credential/answer pairs, later
/// entries shadowing earlier ones (the registry never stores two entries
/// for one credential, so nothing is ever shadowed in fact).
pub open spec fn tally_view(vs: Seq<(String, u8)>) -> Map<Seq<char>, u8>
    decreases vs.len(),
{
    if vs.len() == 0 {
        Map::empty()
    } else {
        tally_view(vs.drop_last()).insert(vs.last().0@, vs.last().1)
    }
}

/// No credential appears twice among the pairs.
pub open spec fn tally_keys_unique(vs: Seq<(String, u8)>) -> bool {
    forall|i: int, j: int| 0 <= i < j < vs.len() ==> vs[i].0@ != vs[j].0@
}

impl View for Vote {
    type V = PollModel;

    open spec fn view(&self) -> PollModel {
        PollModel {
            nft_contract_id: self.nft_contract_id@,
            owner_id: self.owner_id@,
            name: self.name@,
            description: self.description@,
            meta: self.meta@,
            status: self.status,
            answers: self.answers.deep_view(),
            votes: tally_view(self.votes@),
        }
    }
}

impl View for VoteOutModel {
    type V = PollModel;

    open spec fn view(&self) -> PollModel {
        PollModel {
            nft_contract_id: self.nft_contract_id@,
            owner_id: self.owner_id@,
            name: self.name@,
            description: self.description@,
            meta: self.meta@,
            status: self.status,
            answers: self.answers.deep_view(),
            votes: tally_view(self.votes@),
        }
    }
}

/// The models of a stored sequence of polls, in storage order.
pub open spec fn polls_view(ps: Seq<Vote>) -> Seq<PollModel> {
    ps.map_values(|p: Vote| p@)
}

/// The registry held by a sequence of authority groups, later groups
/// shadowing earlier ones (the registry never stores two groups for one
/// authority, so nothing is ever shadowed in fact).
pub open spec fn reg_view(gs: Seq<Group>) -> RegModel
    decreases gs.len(),
{
    if gs.len() == 0 {
        Map::empty()
    } else {
        reg_view(gs.drop_last()).insert(gs.last().authority_id@, polls_view(gs.last().polls@))
    }
}

/// No authority appears twice among the groups.
pub open spec fn group_keys_unique(gs: Seq<Group>) -> bool {
    forall|i: int, j: int| 0 <= i < j < gs.len() ==> gs[i].authority_id@ != gs[j].authority_id@
}

impl View for Contract {
    type V = RegModel;

    open spec fn view(&self) -> RegModel {
        reg_view(self.groups@)
    }
}

/// The polls an authority has in the registry; an authority without a
/// group has none.
pub open spec fn group_of(reg: RegModel, auth: Seq<char>) -> Seq<PollModel> {
    if reg.contains_key(auth) {
        reg[auth]
    } else {
        Seq::empty()
    }
}

// ---------------------------------------------------------------------
// Correspondence between the pair sequences and their map views.
// ---------------------------------------------------------------------

/// A credential is in the tally map exactly when some pair holds it.
pub proof fn lemma_tally_view_contains(vs: Seq<(String, u8)>, k: Seq<char>)
    ensures
        tally_view(vs).contains_key(k) <==> (exists|i: int| 0 <= i < vs.len() && vs[i].0@ == k),
    decreases vs.len(),
{
    if vs.len() == 0 {
    } else {
        lemma_tally_view_contains(vs.drop_last(), k);
        if vs.last().0@ == k {
            assert(vs[vs.len() - 1].0@ == k);
        } else {
            assert forall|i: int| 0 <= i < vs.len() && vs[i].0@ == k implies
                exists|j: int| 0 <= j < vs.drop_last().len() && vs.drop_last()[j].0@ == k by {
                assert(vs.drop_last()[i] == vs[i]);
            }
            assert forall|j: int| 0 <= j < vs.drop_last().len() && vs.drop_last()[j].0@ == k implies
                exists|i: int| 0 <= i < vs.len() && vs[i].0@ == k by {
                assert(vs[j] == vs.drop_last()[j]);
            }
        }
    }
}

/// Appending one pair inserts exactly that credential into the map view.
pub proof fn lemma_tally_view_push(vs: Seq<(String, u8)>, p: (String, u8))
    ensures
        tally_view(vs.push(p)) == tally_view(vs).insert(p.0@, p.1),
{
    assert(vs.push(p).drop_last() =~= vs);
    assert(vs.push(p).last() == p);
}

/// An authority is in the registry map exactly when some group holds it.
pub proof fn lemma_reg_view_contains(gs: Seq<Group>, k: Seq<char>)
    ensures
        reg_view(gs).contains_key(k) <==> (exists|i: int|
            0 <= i < gs.len() && gs[i].authority_id@ == k),
    decreases gs.len(),
{
    if gs.len() == 0 {
    } else {
        lemma_reg_view_contains(gs.drop_last(), k);
        if gs.last().authority_id@ == k {
            assert(gs[gs.len() - 1].authority_id@ == k);
        } else {
            assert forall|i: int| 0 <= i < gs.len() && gs[i].authority_id@ == k implies
                exists|j: int|
                    0 <= j < gs.drop_last().len() && gs.drop_last()[j].authority_id@ == k by {
                assert(gs.drop_last()[i] == gs[i]);
            }
            assert forall|j: int|
                0 <= j < gs.drop_last().len() && gs.drop_last()[j].authority_id@ == k implies
                exists|i: int| 0 <= i < gs.len() && gs[i].authority_id@ == k by {
                assert(gs[j] == gs.drop_last()[j]);
            }
        }
    }
}

/// With unique authorities, the map view at a group's key is exactly
/// that group's polls.
pub proof fn lemma_reg_view_get(gs: Seq<Group>, i: int)
    requires
        group_keys_unique(gs),
        0 <= i < gs.len(),
    ensures
        reg_view(gs).contains_key(gs[i].authority_id@),
        reg_view(gs)[gs[i].authority_id@] == polls_view(gs[i].polls@),
    decreases gs.len(),
{
    lemma_reg_view_contains(gs, gs[i].authority_id@);
    if i == gs.len() - 1 {
        assert(gs.last() == gs[i]);
    } else {
        assert(group_keys_unique(gs.drop_last())) by {
            assert forall|a: int, b: int| 0 <= a < b < gs.drop_last().len() implies
                gs.drop_last()[a].authority_id@ != gs.drop_last()[b].authority_id@ by {
                assert(gs.drop_last()[a] == gs[a]);
                assert(gs.drop_last()[b] == gs[b]);
            }
        }
        assert(gs.drop_last()[i] == gs[i]);
        lemma_reg_view_get(gs.drop_last(), i);
        assert(gs.last().authority_id@ != gs[i].authority_id@);
    }
}

/// Replacing one group by another with the same authority rewrites the
/// map view at exactly that key.
pub proof fn lemma_reg_view_update(gs: Seq<Group>, i: int, g: Group)
    requires
        group_keys_unique(gs),
        0 <= i < gs.len(),
        g.authority_id@ == gs[i].authority_id@,
    ensures
        reg_view(gs.update(i, g)) == reg_view(gs).insert(g.authority_id@, polls_view(g.polls@)),
    decreases gs.len(),
{
    let gs2 = gs.update(i, g);
    if i == gs.len() - 1 {
        assert(gs2.drop_last() =~= gs.drop_last());
        assert(gs2.last() == g);
    } else {
        assert(group_keys_unique(gs.drop_last())) by {
            assert forall|a: int, b: int| 0 <= a < b < gs.drop_last().len() implies
                gs.drop_last()[a].authority_id@ != gs.drop_last()[b].authority_id@ by {
                assert(gs.drop_last()[a] == gs[a]);
                assert(gs.drop_last()[b] == gs[b]);
            }
        }
        assert(gs.drop_last()[i] == gs[i]);
        lemma_reg_view_update(gs.drop_last(), i, g);
        assert(gs2.drop_last() =~= gs.drop_last().update(i, g));
        assert(gs2.last() == gs.last());
        assert(gs.last().authority_id@ != g.authority_id@);
        assert(reg_view(gs2) =~= reg_view(gs).insert(g.authority_id@, polls_view(g.polls@)));
    }
}

/// Appending a group for a fresh authority inserts exactly that key.
pub proof fn lemma_reg_view_push(gs: Seq<Group>, g: Group)
    ensures
        reg_view(gs.push(g)) == reg_view(gs).insert(g.authority_id@, polls_view(g.polls@)),
{
    assert(gs.push(g).drop_last() =~= gs);
    assert(gs.push(g).last() == g);
}

} // verus!
