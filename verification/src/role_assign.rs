//! Role-assignment messages: persistent messages with button grids that
//! toggle a role per button. Rendering, storage and the interactions happen
//! outside this library; the configuration data and its equality — used to
//! detect when a message must be re-rendered — are here.

use vstd::prelude::*;

verus! {

#[derive(Debug)]
pub struct RoleAssignConfig {
    pub enabled: bool,
    pub messages: Vec<RoleAssignMessage>,
}

impl Default for RoleAssignConfig {
    /// The startup configuration: disabled, with no messages.
    fn default() -> (r: RoleAssignConfig)
        ensures
            !r.enabled,
            r.messages@.len() == 0,
    {
        RoleAssignConfig { enabled: false, messages: Vec::new() }
    }
}

/// One managed message: its stable id, the channel it lives in, its text,
/// and up to five rows of up to five buttons.
#[derive(Debug)]
pub struct RoleAssignMessage {
    pub id: i32,
    pub channel_id: u64,
    pub message: String,
    pub buttons: Vec<Vec<RoleAssignButton>>,
}

/// `n` capped at five.
pub open spec fn spec_cap5(n: nat) -> nat {
    if n > 5 {
        5
    } else {
        n
    }
}

/// `capped` is `orig` with its button grid capped at five rows of five and
/// everything else unchanged.
pub open spec fn is_capped(orig: RoleAssignMessage, capped: RoleAssignMessage) -> bool {
    &&& capped.id == orig.id
    &&& capped.channel_id == orig.channel_id
    &&& capped.message == orig.message
    &&& capped.buttons@.len() == spec_cap5(orig.buttons@.len())
    &&& forall|r: int|
        0 <= r < capped.buttons@.len() ==> (#[trigger] capped.buttons@[r])@
            == orig.buttons@[r]@.take(spec_cap5(orig.buttons@[r]@.len()) as int)
}

/// The ids of a message list, in order.
pub open spec fn msg_ids(s: Seq<RoleAssignMessage>) -> Seq<i32> {
    s.map_values(|m: RoleAssignMessage| m.id)
}

/// `j` is the first position carrying its id.
pub open spec fn first_occurrence(s: Seq<RoleAssignMessage>, j: int) -> bool {
    forall|l: int| 0 <= l < j ==> (#[trigger] s[l]).id != s[j].id
}

/// `m` is some first-occurring message of `orig` with its grid capped.
pub open spec fn capped_from(orig: Seq<RoleAssignMessage>, m: RoleAssignMessage) -> bool {
    exists|j: int|
        0 <= j < orig.len() && #[trigger] first_occurrence(orig, j) && is_capped(orig[j], m)
}

/// The ids with every repetition dropped, keeping first occurrences in
/// order.
pub open spec fn spec_dedup_ids(ids: Seq<i32>) -> Seq<i32>
    decreases ids.len(),
{
    if ids.len() == 0 {
        Seq::<i32>::empty()
    } else {
        let d = spec_dedup_ids(ids.drop_last());
        if ids.drop_last().contains(ids.last()) {
            d
        } else {
            d.push(ids.last())
        }
    }
}

/// Deduplication keeps exactly the ids that were there.
pub proof fn lemma_dedup_ids_membership(ids: Seq<i32>)
    ensures
        forall|x: i32| spec_dedup_ids(ids).contains(x) <==> ids.contains(x),
    decreases ids.len(),
{
    if ids.len() > 0 {
        let d0 = ids.drop_last();
        lemma_dedup_ids_membership(d0);
        let rec = spec_dedup_ids(d0);
        let out = spec_dedup_ids(ids);
        assert forall|x: i32| out.contains(x) implies ids.contains(x) by {
            let i = choose|i: int| 0 <= i < out.len() && #[trigger] out[i] == x;
            if i < rec.len() {
                assert(rec[i] == out[i]);
                assert(rec.contains(x));
                assert(d0.contains(x));
                let j = choose|j: int| 0 <= j < d0.len() && #[trigger] d0[j] == x;
                assert(ids[j] == d0[j]);
            } else {
                assert(x == ids.last());
                assert(ids[ids.len() - 1] == x);
            }
        }
        assert forall|x: i32| ids.contains(x) implies out.contains(x) by {
            let i = choose|i: int| 0 <= i < ids.len() && #[trigger] ids[i] == x;
            if i < ids.len() - 1 {
                assert(d0[i] == ids[i]);
                assert(d0.contains(x));
                assert(rec.contains(x));
                let j = choose|j: int| 0 <= j < rec.len() && #[trigger] rec[j] == x;
                assert(out[j] == rec[j]);
            } else {
                if d0.contains(ids.last()) {
                    assert(rec.contains(x));
                    let j = choose|j: int| 0 <= j < rec.len() && #[trigger] rec[j] == x;
                    assert(out[j] == rec[j]);
                } else {
                    assert(out[out.len() - 1] == x);
                }
            }
        }
    }
}

/// Deduplicated ids are pairwise distinct.
pub proof fn lemma_dedup_ids_unique(ids: Seq<i32>)
    ensures
        forall|i: int, j: int|
            0 <= i < j < spec_dedup_ids(ids).len() ==> spec_dedup_ids(ids)[i] != spec_dedup_ids(
                ids,
            )[j],
    decreases ids.len(),
{
    if ids.len() > 0 {
        let d0 = ids.drop_last();
        lemma_dedup_ids_unique(d0);
        lemma_dedup_ids_membership(d0);
        let out = spec_dedup_ids(ids);
        let rec = spec_dedup_ids(d0);
        if !d0.contains(ids.last()) {
            assert forall|i: int, j: int| 0 <= i < j < out.len() implies out[i] != out[j] by {
                if j < out.len() - 1 {
                    assert(rec[i] == out[i] && rec[j] == out[j]);
                } else {
                    assert(rec[i] == out[i]);
                    assert(rec.contains(rec[i]));
                    assert(d0.contains(rec[i]));
                }
            }
        }
    }
}

impl RoleAssignConfig {
    /// Sanitize a freshly loaded configuration, as the module does before
    /// using it: of several messages sharing an id only the first is kept,
    /// and every kept message's button grid is capped at five rows of five.
    pub fn sanitize(&mut self)
        ensures
            final(self).enabled == old(self).enabled,
            msg_ids(final(self).messages@) == spec_dedup_ids(msg_ids(old(self).messages@)),
            forall|i: int, j: int|
                0 <= i < j < final(self).messages@.len()
                    ==> (#[trigger] final(self).messages@[i]).id
                    != (#[trigger] final(self).messages@[j]).id,
            forall|p: int|
                0 <= p < final(self).messages@.len() ==> capped_from(
                    old(self).messages@,
                    #[trigger] final(self).messages@[p],
                ),
    {
        let ghost orig = self.messages@;
        let mut kept: Vec<RoleAssignMessage> = Vec::new();
        proof {
            assert(orig.take(0) =~= Seq::<RoleAssignMessage>::empty());
            assert(msg_ids(kept@) =~= spec_dedup_ids(msg_ids(orig.take(0))));
        }
        while self.messages.len() > 0
            invariant
                self.enabled == old(self).enabled,
                self.messages@.len() <= orig.len(),
                self.messages@ == orig.skip(orig.len() - self.messages@.len()),
                msg_ids(kept@) == spec_dedup_ids(
                    msg_ids(orig.take(orig.len() - self.messages@.len())),
                ),
                forall|id: i32|
                    msg_ids(kept@).contains(id) <==> msg_ids(
                        orig.take(orig.len() - self.messages@.len()),
                    ).contains(id),
                forall|p: int| 0 <= p < kept@.len() ==> capped_from(orig, #[trigger] kept@[p]),
            decreases self.messages@.len(),
        {
            let ghost k = orig.len() - self.messages@.len();
            let ghost pre_kept = kept@;
            let mut m = self.messages.remove(0);
            proof {
                assert(m == orig[k]);
                assert(self.messages@ =~= orig.skip(k + 1));
                let tk = orig.take(k + 1);
                assert(tk.drop_last() =~= orig.take(k));
                assert(tk.last() == orig[k]);
                assert(msg_ids(tk).drop_last() =~= msg_ids(orig.take(k)));
                assert(msg_ids(tk).last() == orig[k].id);
            }
            let seen = Self::contains_id(&kept, m.id);
            if !seen {
                m.truncate_grid();
                kept.push(m);
                proof {
                    let tk = orig.take(k + 1);
                    assert(!msg_ids(orig.take(k)).contains(orig[k as int].id));
                    assert(!msg_ids(tk).drop_last().contains(msg_ids(tk).last()));
                    assert(spec_dedup_ids(msg_ids(tk)) == spec_dedup_ids(
                        msg_ids(tk).drop_last(),
                    ).push(orig[k as int].id));
                    assert(msg_ids(kept@) =~= msg_ids(pre_kept).push(orig[k as int].id));
                    assert(msg_ids(kept@) == spec_dedup_ids(msg_ids(tk)));
                    assert(first_occurrence(orig, k as int)) by {
                        assert forall|l: int| 0 <= l < k implies (#[trigger] orig[l]).id != orig[
                            k as int
                        ].id by {
                            if orig[l].id == orig[k as int].id {
                                assert(msg_ids(orig.take(k))[l] == orig[l].id);
                                assert(msg_ids(orig.take(k)).contains(orig[k as int].id));
                            }
                        }
                    }
                    assert forall|id: i32|
                        msg_ids(kept@).contains(id) <==> msg_ids(tk).contains(id) by {
                        if msg_ids(kept@).contains(id) {
                            let i = choose|i: int|
                                0 <= i < msg_ids(kept@).len() && #[trigger] msg_ids(kept@)[i]
                                    == id;
                            if i < pre_kept.len() {
                                assert(msg_ids(pre_kept)[i] == id);
                                assert(msg_ids(pre_kept).contains(id));
                                assert(msg_ids(orig.take(k)).contains(id));
                                let j = choose|j: int|
                                    0 <= j < msg_ids(orig.take(k)).len() && #[trigger] msg_ids(
                                        orig.take(k),
                                    )[j] == id;
                                assert(msg_ids(tk)[j] == id);
                            } else {
                                assert(msg_ids(tk)[k as int] == id);
                            }
                            assert(msg_ids(tk).contains(id));
                        }
                        if msg_ids(tk).contains(id) {
                            let i = choose|i: int|
                                0 <= i < msg_ids(tk).len() && #[trigger] msg_ids(tk)[i] == id;
                            if i < k {
                                assert(msg_ids(orig.take(k))[i] == id);
                                assert(msg_ids(orig.take(k)).contains(id));
                                assert(msg_ids(pre_kept).contains(id));
                                let j = choose|j: int|
                                    0 <= j < msg_ids(pre_kept).len() && #[trigger] msg_ids(
                                        pre_kept,
                                    )[j] == id;
                                assert(kept@[j] == pre_kept[j]);
                                assert(msg_ids(kept@)[j] == id);
                            } else {
                                assert(msg_ids(kept@)[msg_ids(kept@).len() - 1] == id);
                            }
                            assert(msg_ids(kept@).contains(id));
                        }
                    }
                    assert forall|p: int| 0 <= p < kept@.len() implies capped_from(
                        orig,
                        #[trigger] kept@[p],
                    ) by {
                        if p < pre_kept.len() {
                            assert(kept@[p] == pre_kept[p]);
                            assert(capped_from(orig, pre_kept[p]));
                        } else {
                            assert(kept@[p] == kept@[kept@.len() - 1]);
                            assert(is_capped(orig[k as int], kept@[p]));
                            assert(capped_from(orig, kept@[p]));
                        }
                    }
                }
            } else {
                proof {
                    let tk = orig.take(k + 1);
                    assert(msg_ids(pre_kept).contains(orig[k as int].id));
                    assert(msg_ids(orig.take(k)).contains(orig[k as int].id));
                    assert(msg_ids(tk).drop_last().contains(msg_ids(tk).last()));
                    assert(spec_dedup_ids(msg_ids(tk)) == spec_dedup_ids(msg_ids(tk).drop_last()));
                    assert(msg_ids(kept@) == spec_dedup_ids(msg_ids(tk)));
                    assert forall|id: i32|
                        msg_ids(kept@).contains(id) <==> msg_ids(tk).contains(id) by {
                        if msg_ids(kept@).contains(id) {
                            assert(msg_ids(orig.take(k)).contains(id));
                            let j = choose|j: int|
                                0 <= j < msg_ids(orig.take(k)).len() && #[trigger] msg_ids(
                                    orig.take(k),
                                )[j] == id;
                            assert(msg_ids(tk)[j] == id);
                            assert(msg_ids(tk).contains(id));
                        }
                        if msg_ids(tk).contains(id) {
                            let i = choose|i: int|
                                0 <= i < msg_ids(tk).len() && #[trigger] msg_ids(tk)[i] == id;
                            if i < k {
                                assert(msg_ids(orig.take(k))[i] == id);
                                assert(msg_ids(orig.take(k)).contains(id));
                            } else {
                                assert(id == orig[k as int].id);
                                assert(msg_ids(orig.take(k)).contains(id));
                            }
                            assert(msg_ids(kept@).contains(id));
                        }
                    }
                }
            }
        }
        proof {
            assert(orig.take(orig.len() as int) =~= orig);
            lemma_dedup_ids_unique(msg_ids(orig));
        }
        self.messages = kept;
        proof {
            let out = msg_ids(self.messages@);
            assert(out == spec_dedup_ids(msg_ids(orig)));
            assert forall|i: int, j: int|
                0 <= i < j < self.messages@.len() implies (#[trigger] self.messages@[i]).id != (
            #[trigger] self.messages@[j]).id by {
                assert(out[i] == self.messages@[i].id && out[j] == self.messages@[j].id);
            }
        }
    }

    /// Whether a message list already holds the id.
    fn contains_id(v: &Vec<RoleAssignMessage>, id: i32) -> (r: bool)
        ensures
            r == msg_ids(v@).contains(id),
    {
        let n = v.len();
        let mut i: usize = 0;
        while i < n
            invariant
                n == v@.len(),
                i <= n,
                forall|j: int| 0 <= j < i ==> (#[trigger] v@[j]).id != id,
            decreases n - i,
        {
            if v[i].id == id {
                assert(msg_ids(v@)[i as int] == id);
                return true;
            }
            i = i + 1;
        }
        proof {
            if msg_ids(v@).contains(id) {
                let j = choose|j: int| 0 <= j < msg_ids(v@).len() && msg_ids(v@)[j] == id;
                assert(v@[j].id == id);
            }
        }
        false
    }
}

impl RoleAssignMessage {
    /// Cap the button grid at five rows of five buttons each.
    pub fn truncate_grid(&mut self)
        ensures
            is_capped(*old(self), *final(self)),
    {
        let ghost orig = self.buttons@;
        self.buttons.truncate(5);
        let ghost capped = self.buttons@;
        let mut rows: Vec<Vec<RoleAssignButton>> = Vec::new();
        proof {
            assert(capped.skip(0) =~= capped);
        }
        while self.buttons.len() > 0
            invariant
                self.id == old(self).id,
                self.channel_id == old(self).channel_id,
                self.message == old(self).message,
                capped.len() <= 5,
                capped.len() == spec_cap5(orig.len()),
                forall|r: int| 0 <= r < capped.len() ==> capped[r] == orig[r],
                self.buttons@.len() <= capped.len(),
                self.buttons@ == capped.skip(capped.len() - self.buttons@.len()),
                rows@.len() == capped.len() - self.buttons@.len(),
                forall|r: int|
                    0 <= r < rows@.len() ==> (#[trigger] rows@[r])@ == orig[r]@.take(
                        spec_cap5(orig[r]@.len()) as int,
                    ),
            decreases self.buttons@.len(),
        {
            let ghost k = capped.len() - self.buttons@.len();
            let mut row = self.buttons.remove(0);
            proof {
                assert(row == capped[k]);
                assert(self.buttons@ =~= capped.skip(k + 1));
            }
            row.truncate(5);
            proof {
                assert(row@ =~= orig[k]@.take(spec_cap5(orig[k]@.len()) as int));
            }
            rows.push(row);
        }
        self.buttons = rows;
        proof {
            assert(self.buttons@.len() == spec_cap5(old(self).buttons@.len()));
            assert(is_capped(*old(self), *self));
        }
    }
}

impl RoleAssignMessage {
    /// The button a component interaction refers to: position `idx` in a
    /// grid of five buttons per row.
    pub fn button_at(&self, idx: usize) -> (r: Option<&RoleAssignButton>)
        ensures
            (r is Some) == (idx / 5 < self.buttons@.len() && idx % 5
                < self.buttons@[idx as int / 5]@.len()),
            r matches Some(b) ==> *b == self.buttons@[idx as int / 5]@[idx as int % 5],
    {
        let row = idx / 5;
        let col = idx % 5;
        if row < self.buttons.len() {
            let r = &self.buttons[row];
            if col < r.len() {
                return Some(&r[col]);
            }
        }
        None
    }
}

/// The emoji shown on a button.
#[derive(Debug, Hash)]
pub struct PartialEmoji {
    pub id: u64,
    pub name: String,
    pub animated: bool,
}

/// One role-toggling button: an optional emoji, an optional label, and the
/// role it grants or removes.
#[derive(Debug, Hash)]
pub struct RoleAssignButton {
    pub emoji: Option<PartialEmoji>,
    pub label: Option<String>,
    pub role_id: u64,
}

impl PartialEq for RoleAssignButton {
    /// Buttons are equal when they show the same emoji (by id, name and
    /// animation flag), the same label, and toggle the same role.
    fn eq(&self, other: &RoleAssignButton) -> (r: bool) {
        let emoji = match (&self.emoji, &other.emoji) {
            (Option::None, Option::None) => true,
            (Option::Some(a), Option::Some(b)) => a.id == b.id && a.name == b.name && a.animated
                == b.animated,
            _ => false,
        };
        let label = match (&self.label, &other.label) {
            (Option::None, Option::None) => true,
            (Option::Some(a), Option::Some(b)) => *a == *b,
            _ => false,
        };
        emoji && label && self.role_id == other.role_id
    }
}

impl vstd::std_specs::cmp::PartialEqSpecImpl for RoleAssignButton {
    open spec fn obeys_eq_spec() -> bool {
        true
    }

    open spec fn eq_spec(&self, other: &RoleAssignButton) -> bool {
        &&& match (self.emoji, other.emoji) {
            (Option::None, Option::None) => true,
            (Option::Some(a), Option::Some(b)) => a.id == b.id && a.name@ == b.name@ && a.animated
                == b.animated,
            _ => false,
        }
        &&& match (self.label, other.label) {
            (Option::None, Option::None) => true,
            (Option::Some(a), Option::Some(b)) => a@ == b@,
            _ => false,
        }
        &&& self.role_id == other.role_id
    }
}

} // verus!
