//! Set semantics of the per-address tag store: one row per address, an
//! ordered tag list with no duplicates, and an idempotent upsert.
//!
//! [`TagTable`] is the in-memory image of the two-column table
//! `(address, tags)`. The persistent store enforces the same rules at
//! the data layer; callers that read rows from it go through
//! [`tags_or_empty`], which turns "no row" into the empty tag set.

use vstd::prelude::*;

use crate::models::{UserTags, copy_tag_list};

verus! {

/// No tag occurs twice in the list.
pub open spec fn no_dup_tags(tags: Seq<String>) -> bool {
    forall|a: int, b: int|
        0 <= a < b < tags.len() ==> (#[trigger] tags[a])@ != (#[trigger] tags[b])@
}

/// Some tag of the list reads `t`.
pub open spec fn spec_has_tag(tags: Seq<String>, t: Seq<char>) -> bool {
    exists|k: int| 0 <= k < tags.len() && (#[trigger] tags[k])@ == t
}

/// The tag list after a set-semantics append: unchanged when the tag
/// is already present, extended by it at the end otherwise.
pub open spec fn spec_tags_after_add(tags: Seq<String>, tag: String) -> Seq<String> {
    if spec_has_tag(tags, tag@) {
        tags
    } else {
        tags.push(tag)
    }
}

/// The tag list stored for `address`; empty when the address owns no
/// row.
pub open spec fn spec_lookup(rows: Seq<UserTags>, address: Seq<char>) -> Seq<String>
    decreases rows.len(),
{
    if rows.len() == 0 {
        Seq::empty()
    } else if rows[0].address@ == address {
        rows[0].tags@
    } else {
        spec_lookup(rows.drop_first(), address)
    }
}

/// Unknown-address law: an address that owns no row resolves to the
/// empty tag set — absence is not an error.
pub proof fn lemma_unknown_address_empty(rows: Seq<UserTags>, address: Seq<char>)
    requires
        forall|k: int| 0 <= k < rows.len() ==> (#[trigger] rows[k]).address@ != address,
    ensures
        spec_lookup(rows, address) == Seq::<String>::empty(),
    decreases rows.len(),
{
    if rows.len() > 0 {
        assert(forall|k: int|
            0 <= k < rows.len() - 1 ==> #[trigger] rows.drop_first()[k] == rows[k + 1]);
        lemma_unknown_address_empty(rows.drop_first(), address);
    }
}

/// Tag idempotence law: adding the same tag a second time leaves the
/// list exactly as the first add left it.
pub proof fn lemma_add_tag_idempotent(tags: Seq<String>, tag: String)
    ensures
        spec_tags_after_add(spec_tags_after_add(tags, tag), tag) == spec_tags_after_add(tags, tag),
{
    let once = spec_tags_after_add(tags, tag);
    if !spec_has_tag(tags, tag@) {
        assert(once[once.len() - 1]@ == tag@);
        assert(spec_has_tag(once, tag@));
    }
}

proof fn lemma_lookup_at(rows: Seq<UserTags>, address: Seq<char>, j: int)
    requires
        0 <= j < rows.len(),
        rows[j].address@ == address,
        forall|k: int| 0 <= k < j ==> (#[trigger] rows[k]).address@ != address,
    ensures
        spec_lookup(rows, address) == rows[j].tags@,
    decreases j,
{
    if j > 0 {
        assert(forall|k: int|
            0 <= k < rows.len() - 1 ==> #[trigger] rows.drop_first()[k] == rows[k + 1]);
        lemma_lookup_at(rows.drop_first(), address, j - 1);
    }
}

proof fn lemma_lookup_update_other(rows: Seq<UserTags>, j: int, row2: UserTags, address: Seq<char>)
    requires
        0 <= j < rows.len(),
        row2.address@ == rows[j].address@,
        rows[j].address@ != address,
    ensures
        spec_lookup(rows.update(j, row2), address) == spec_lookup(rows, address),
    decreases rows.len(),
{
    let updated = rows.update(j, row2);
    if j == 0 {
        assert(updated[0] == row2);
        assert(updated.drop_first() =~= rows.drop_first());
    } else {
        assert(updated[0] == rows[0]);
        assert(updated.drop_first() =~= rows.drop_first().update(j - 1, row2));
        lemma_lookup_update_other(rows.drop_first(), j - 1, row2, address);
    }
}

proof fn lemma_lookup_push(rows: Seq<UserTags>, row: UserTags, address: Seq<char>)
    ensures
        (forall|k: int| 0 <= k < rows.len() ==> (#[trigger] rows[k]).address@ != row.address@)
            && row.address@ == address ==> spec_lookup(rows.push(row), address) == row.tags@,
        address != row.address@ ==> spec_lookup(rows.push(row), address) == spec_lookup(
            rows,
            address,
        ),
    decreases rows.len(),
{
    if rows.len() == 0 {
        assert(rows.push(row)[0] == row);
        assert(rows.push(row).drop_first() =~= Seq::<UserTags>::empty());
        assert(rows =~= Seq::<UserTags>::empty());
        assert(spec_lookup(Seq::<UserTags>::empty(), address) == Seq::<String>::empty());
        if address != row.address@ {
            assert(spec_lookup(rows.push(row), address) == Seq::<String>::empty());
        }
    } else {
        assert(rows.push(row)[0] == rows[0]);
        assert(rows.push(row).drop_first() =~= rows.drop_first().push(row));
        assert(forall|k: int|
            0 <= k < rows.len() - 1 ==> #[trigger] rows.drop_first()[k] == rows[k + 1]);
        lemma_lookup_push(rows.drop_first(), row, address);
    }
}

fn find_row(rows: &Vec<UserTags>, address: &String) -> (r: Option<usize>)
    ensures
        r matches Some(j) ==> {
            &&& 0 <= j < rows@.len()
            &&& rows@[j as int].address@ == address@
            &&& forall|k: int| 0 <= k < j ==> (#[trigger] rows@[k]).address@ != address@
        },
        r is None ==> forall|k: int|
            0 <= k < rows@.len() ==> (#[trigger] rows@[k]).address@ != address@,
{
    let mut j: usize = 0;
    while j < rows.len()
        invariant
            j <= rows.len(),
            forall|k: int| 0 <= k < j ==> (#[trigger] rows@[k]).address@ != address@,
        decreases rows.len() - j,
    {
        if rows[j].address == *address {
            return Some(j);
        }
        j = j + 1;
    }
    None
}

fn tags_contain(tags: &Vec<String>, t: &String) -> (r: bool)
    ensures
        r == spec_has_tag(tags@, t@),
{
    let mut k: usize = 0;
    while k < tags.len()
        invariant
            k <= tags.len(),
            forall|j: int| 0 <= j < k ==> (#[trigger] tags@[j])@ != t@,
        decreases tags.len() - k,
    {
        if tags[k] == *t {
            return true;
        }
        k = k + 1;
    }
    false
}

/// An in-memory image of the tag table: at most one row per address,
/// each row's tag list ordered and duplicate-free.
pub struct TagTable {
    pub rows: Vec<UserTags>,
}

impl TagTable {
    /// Each address owns at most one row, and no row's tag list holds
    /// a duplicate.
    pub open spec fn wf(self) -> bool {
        &&& forall|a: int, b: int|
            0 <= a < b < self.rows@.len() ==> (#[trigger] self.rows@[a]).address@ != (
            #[trigger] self.rows@[b]).address@
        &&& forall|a: int|
            0 <= a < self.rows@.len() ==> no_dup_tags((#[trigger] self.rows@[a]).tags@)
    }

    /// An empty table.
    pub fn new() -> (r: TagTable)
        ensures
            r.wf(),
            r.rows@ == Seq::<UserTags>::empty(),
    {
        TagTable { rows: Vec::new() }
    }

    /// The tag set stored for `address`; an unknown address yields the
    /// empty set, never an error.
    pub fn get_tags(&self, address: &String) -> (r: UserTags)
        ensures
            r.address@ == address@,
            r.tags@ == spec_lookup(self.rows@, address@),
    {
        match find_row(&self.rows, address) {
            Some(j) => {
                proof {
                    lemma_lookup_at(self.rows@, address@, j as int);
                }
                UserTags { address: address.clone(), tags: copy_tag_list(&self.rows[j].tags) }
            },
            None => {
                proof {
                    lemma_unknown_address_empty(self.rows@, address@);
                }
                UserTags { address: address.clone(), tags: Vec::new() }
            },
        }
    }

    /// Set-semantics upsert: an absent address gains a row holding the
    /// single tag; a present address's list gains the tag only if it
    /// is not already there. Every other address's tags are untouched.
    /// Returns the full updated row.
    pub fn add_tag(&mut self, address: &String, tag: &String) -> (r: UserTags)
        requires
            old(self).wf(),
        ensures
            final(self).wf(),
            spec_lookup(final(self).rows@, address@) == spec_tags_after_add(
                spec_lookup(old(self).rows@, address@),
                *tag,
            ),
            forall|other: Seq<char>|
                other != address@ ==> #[trigger] spec_lookup(final(self).rows@, other)
                    == spec_lookup(old(self).rows@, other),
            r.address@ == address@,
            r.tags@ == spec_lookup(final(self).rows@, address@),
    {
        let ghost old_rows = self.rows@;
        match find_row(&self.rows, address) {
            Some(j) => {
                proof {
                    lemma_lookup_at(old_rows, address@, j as int);
                }
                let mut row = self.rows.remove(j);
                if !tags_contain(&row.tags, tag) {
                    let ghost prev_tags = row.tags@;
                    row.tags.push(tag.clone());
                    proof {
                        assert forall|a: int, b: int|
                            0 <= a < b < row.tags@.len() implies (#[trigger] row.tags@[a])@ != (
                        #[trigger] row.tags@[b])@ by {
                            if b < prev_tags.len() {
                                assert(no_dup_tags(prev_tags));
                            } else {
                                assert(row.tags@[b]@ == tag@);
                                assert(!spec_has_tag(prev_tags, tag@));
                            }
                        };
                    }
                }
                let result = row.duplicate();
                self.rows.insert(j, row);
                proof {
                    assert(self.rows@ =~= old_rows.update(j as int, row));
                    lemma_lookup_at(self.rows@, address@, j as int);
                    assert forall|other: Seq<char>| other != address@ implies #[trigger] spec_lookup(
                        self.rows@,
                        other,
                    ) == spec_lookup(old_rows, other) by {
                        lemma_lookup_update_other(old_rows, j as int, row, other);
                    };
                }
                result
            },
            None => {
                let mut tv: Vec<String> = Vec::new();
                tv.push(tag.clone());
                let row = UserTags { address: address.clone(), tags: tv };
                let result = row.duplicate();
                self.rows.push(row);
                proof {
                    lemma_unknown_address_empty(old_rows, address@);
                    lemma_lookup_push(old_rows, row, address@);
                    assert(row.tags@ =~= Seq::<String>::empty().push(*tag));
                    assert forall|other: Seq<char>| other != address@ implies #[trigger] spec_lookup(
                        self.rows@,
                        other,
                    ) == spec_lookup(old_rows, other) by {
                        lemma_lookup_push(old_rows, row, other);
                    };
                }
                result
            },
        }
    }
}

/// The tag set for `address` as read from a store row: the row's tags
/// when one came back, the empty set when the store had none.
pub fn tags_or_empty(address: &String, row: Option<UserTags>) -> (r: UserTags)
    ensures
        r.address@ == address@,
        row matches Some(u) ==> r.tags@ == u.tags@,
        row is None ==> r.tags@ == Seq::<String>::empty(),
{
    match row {
        Some(u) => UserTags { address: address.clone(), tags: u.tags },
        None => UserTags { address: address.clone(), tags: Vec::new() },
    }
}

} // verus!
