//! The store as mathematics: a sequence of named class records, and what each
//! command makes of it. The executable functions of this crate are specified
//! against the functions of this module.
use crate::error::Error;
use vstd::prelude::*;

verus! {

/// A class record: its tag and its assignments, oldest first.
pub struct ClassView {
    pub tag: Seq<char>,
    pub assignments: Seq<Seq<char>>,
}

/// One entry of a store: the name of a class and its record.
pub struct ClassEntry {
    pub name: Seq<char>,
    pub class: ClassView,
}

/// A store: its entries in display order.
pub type Store = Seq<ClassEntry>;

/// Entry `i` carries `tag`, and no entry before it does.
pub open spec fn is_first_with_tag(store: Store, tag: Seq<char>, i: int) -> bool {
    &&& 0 <= i < store.len()
    &&& store[i].class.tag == tag
    &&& forall|j: int| 0 <= j < i ==> store[j].class.tag != tag
}

/// The position of the first entry that carries `tag`, if there is one.
pub open spec fn tag_index(store: Store, tag: Seq<char>) -> Option<int> {
    if exists|i: int| is_first_with_tag(store, tag, i) {
        Some(choose|i: int| is_first_with_tag(store, tag, i))
    } else {
        None
    }
}

/// Some entry carries `tag`.
pub open spec fn has_tag(store: Store, tag: Seq<char>) -> bool {
    exists|i: int| 0 <= i < store.len() && (#[trigger] store[i]).class.tag == tag
}

/// Some entry other than the one at `skip` carries `tag`.
pub open spec fn has_tag_elsewhere(store: Store, tag: Seq<char>, skip: Option<int>) -> bool {
    exists|i: int| 0 <= i < store.len() && Some(i) != skip && (#[trigger] store[i]).class.tag == tag
}

/// Entry `i` is named `name`, and no entry before it is.
pub open spec fn is_first_with_name(store: Store, name: Seq<char>, i: int) -> bool {
    &&& 0 <= i < store.len()
    &&& store[i].name == name
    &&& forall|j: int| 0 <= j < i ==> store[j].name != name
}

/// The position of the first entry named `name`, if there is one.
pub open spec fn name_index(store: Store, name: Seq<char>) -> Option<int> {
    if exists|i: int| is_first_with_name(store, name, i) {
        Some(choose|i: int| is_first_with_name(store, name, i))
    } else {
        None
    }
}

/// No two entries carry the same tag.
pub open spec fn tags_distinct(store: Store) -> bool {
    forall|i: int, j: int| 0 <= i < j < store.len() ==> store[i].class.tag != store[j].class.tag
}

/// No two entries have the same name.
pub open spec fn names_distinct(store: Store) -> bool {
    forall|i: int, j: int| 0 <= i < j < store.len() ==> store[i].name != store[j].name
}

/// The store with the record of entry `i` replaced by `class`.
pub open spec fn with_class(store: Store, i: int, class: ClassView) -> Store {
    store.update(i, ClassEntry { name: store[i].name, class })
}

/// The store with the assignments of entry `i` replaced by `assignments`.
pub open spec fn with_assignments(store: Store, i: int, assignments: Seq<Seq<char>>) -> Store {
    with_class(store, i, ClassView { tag: store[i].class.tag, assignments })
}

/// The store with the entries at `i` and `j` exchanged.
pub open spec fn swapped(store: Store, i: int, j: int) -> Store {
    store.update(i, store[j]).update(j, store[i])
}

/// The direction word that moves a class towards the front.
pub open spec fn up() -> Seq<char> {
    seq!['u']
}

/// The direction word that moves a class towards the back.
pub open spec fn down() -> Seq<char> {
    seq!['d']
}

/// Adding a class: refused while some entry carries `tag`. Otherwise the new
/// record, with no assignments, goes to the end under `name`; where an entry is
/// already named `name`, the new record takes that entry's place instead.
pub open spec fn spec_add_class(
    store: Store,
    name: Seq<char>,
    tag: Seq<char>,
) -> Result<Store, Error> {
    let class = ClassView { tag, assignments: Seq::empty() };
    if has_tag(store, tag) {
        Err(Error::TagAlreadyExists)
    } else {
        match name_index(store, name) {
            Some(i) => Ok(with_class(store, i, class)),
            None => Ok(store.push(ClassEntry { name, class })),
        }
    }
}

/// Removing a class: the first entry that carries `tag` leaves, and the entries
/// behind it close up in their order.
pub open spec fn spec_remove_class(store: Store, tag: Seq<char>) -> Result<Store, Error> {
    match tag_index(store, tag) {
        Some(i) => Ok(store.remove(i)),
        None => Err(Error::ClassNotFound),
    }
}

/// Changing a tag: refused while an entry other than the one addressed carries
/// `to`; otherwise the first entry that carries `from` carries `to` afterwards.
pub open spec fn spec_change_class_tag(
    store: Store,
    from: Seq<char>,
    to: Seq<char>,
) -> Result<Store, Error> {
    let at = tag_index(store, from);
    if has_tag_elsewhere(store, to, at) {
        Err(Error::TagAlreadyExists)
    } else {
        match at {
            Some(i) => Ok(
                with_class(
                    store,
                    i,
                    ClassView { tag: to, assignments: store[i].class.assignments },
                ),
            ),
            None => Err(Error::ClassNotFound),
        }
    }
}

/// Moving a class: the first entry that carries `tag` changes places with the
/// entry before it (`up`) or behind it (`down`), if there is such an entry.
pub open spec fn spec_move_class(
    store: Store,
    tag: Seq<char>,
    position: Seq<char>,
) -> Result<Store, Error> {
    match tag_index(store, tag) {
        Some(i) => {
            if position == up() && i > 0 {
                Ok(swapped(store, i, i - 1))
            } else if position == down() && i + 1 < store.len() {
                Ok(swapped(store, i, i + 1))
            } else {
                Err(Error::InvalidMovementDirection)
            }
        },
        None => Err(Error::ClassNotFound),
    }
}

/// Adding an assignment: `text` goes to the end of the assignments of the first
/// entry that carries `tag`.
pub open spec fn spec_add_assignment(
    store: Store,
    tag: Seq<char>,
    text: Seq<char>,
) -> Result<Store, Error> {
    match tag_index(store, tag) {
        Some(i) => Ok(with_assignments(store, i, store[i].class.assignments.push(text))),
        None => Err(Error::ClassNotFound),
    }
}

/// Removing an assignment: `number` counts the assignments of the first entry
/// that carries `tag` from one. That assignment leaves and the later ones close up.
pub open spec fn spec_remove_assignment(
    store: Store,
    tag: Seq<char>,
    number: nat,
) -> Result<Store, Error> {
    match tag_index(store, tag) {
        Some(i) => {
            if 1 <= number <= store[i].class.assignments.len() {
                Ok(with_assignments(store, i, store[i].class.assignments.remove(number - 1)))
            } else {
                Err(Error::InvalidAssignmentIndex)
            }
        },
        None => Err(Error::ClassNotFound),
    }
}

/// Clearing: the first entry that carries `tag` has no assignments afterwards.
pub open spec fn spec_clear_assignments(store: Store, tag: Seq<char>) -> Result<Store, Error> {
    match tag_index(store, tag) {
        Some(i) => Ok(with_assignments(store, i, Seq::empty())),
        None => Err(Error::ClassNotFound),
    }
}

/// A command that changes a store, with its arguments.
pub enum Change {
    AddClass { name: Seq<char>, tag: Seq<char> },
    RemoveClass { tag: Seq<char> },
    ChangeClassTag { from: Seq<char>, to: Seq<char> },
    MoveClass { tag: Seq<char>, position: Seq<char> },
    AddAssignment { tag: Seq<char>, text: Seq<char> },
    RemoveAssignment { tag: Seq<char>, number: nat },
    ClearAssignments { tag: Seq<char> },
}

/// What a command makes of a store.
pub open spec fn spec_apply(store: Store, change: Change) -> Result<Store, Error> {
    match change {
        Change::AddClass { name, tag } => spec_add_class(store, name, tag),
        Change::RemoveClass { tag } => spec_remove_class(store, tag),
        Change::ChangeClassTag { from, to } => spec_change_class_tag(store, from, to),
        Change::MoveClass { tag, position } => spec_move_class(store, tag, position),
        Change::AddAssignment { tag, text } => spec_add_assignment(store, tag, text),
        Change::RemoveAssignment { tag, number } => spec_remove_assignment(store, tag, number),
        Change::ClearAssignments { tag } => spec_clear_assignments(store, tag),
    }
}

/// The store after a command: a command that fails leaves it as it was.
pub open spec fn after(store: Store, change: Change) -> Store {
    match spec_apply(store, change) {
        Ok(changed) => changed,
        Err(_) => store,
    }
}

/// The store after a row of commands, carried out in order.
pub open spec fn after_all(store: Store, changes: Seq<Change>) -> Store
    decreases changes.len(),
{
    if changes.len() == 0 {
        store
    } else {
        after(after_all(store, changes.drop_last()), changes.last())
    }
}

/// A command's result and the store it leaves agree with `expected`: on success
/// the store is the expected one, on failure the error is the expected one and
/// the store is as it was.
pub open spec fn carried_out(
    result: Result<(), Error>,
    before: Store,
    after: Store,
    expected: Result<Store, Error>,
) -> bool {
    match expected {
        Ok(store) => result is Ok && after == store,
        Err(error) => result == Err::<(), Error>(error) && after == before,
    }
}

/// Whoever is first with a tag is what `tag_index` finds.
pub proof fn lemma_first_with_tag_is_index(store: Store, tag: Seq<char>, i: int)
    requires
        is_first_with_tag(store, tag, i),
    ensures
        tag_index(store, tag) == Some(i),
{
}

/// Among the entries up to `i`, if `i` carries the tag then one of them is the first to.
proof fn lemma_some_first_with_tag(store: Store, tag: Seq<char>, i: int)
    requires
        0 <= i < store.len(),
        store[i].class.tag == tag,
    ensures
        exists|k: int| 0 <= k <= i && is_first_with_tag(store, tag, k),
    decreases i,
{
    if exists|j: int| 0 <= j < i && (#[trigger] store[j]).class.tag == tag {
        let j = choose|j: int| 0 <= j < i && (#[trigger] store[j]).class.tag == tag;
        lemma_some_first_with_tag(store, tag, j);
    } else {
        assert(is_first_with_tag(store, tag, i));
    }
}

/// What `tag_index` finds is the first entry with the tag; it finds nothing
/// exactly when no entry carries the tag.
pub proof fn lemma_tag_index(store: Store, tag: Seq<char>)
    ensures
        match tag_index(store, tag) {
            Some(i) => is_first_with_tag(store, tag, i),
            None => !has_tag(store, tag),
        },
        tag_index(store, tag) is Some <==> has_tag(store, tag),
{
    if has_tag(store, tag) {
        let i = choose|i: int| 0 <= i < store.len() && (#[trigger] store[i]).class.tag == tag;
        lemma_some_first_with_tag(store, tag, i);
    }
}

/// Whoever is first with a name is what `name_index` finds.
pub proof fn lemma_first_with_name_is_index(store: Store, name: Seq<char>, i: int)
    requires
        is_first_with_name(store, name, i),
    ensures
        name_index(store, name) == Some(i),
{
}

/// Among the entries up to `i`, if `i` has the name then one of them is the first to.
proof fn lemma_some_first_with_name(store: Store, name: Seq<char>, i: int)
    requires
        0 <= i < store.len(),
        store[i].name == name,
    ensures
        exists|k: int| 0 <= k <= i && is_first_with_name(store, name, k),
    decreases i,
{
    if exists|j: int| 0 <= j < i && (#[trigger] store[j]).name == name {
        let j = choose|j: int| 0 <= j < i && (#[trigger] store[j]).name == name;
        lemma_some_first_with_name(store, name, j);
    } else {
        assert(is_first_with_name(store, name, i));
    }
}

/// What `name_index` finds is the first entry with the name; it finds nothing
/// exactly when no entry has the name.
pub proof fn lemma_name_index(store: Store, name: Seq<char>)
    ensures
        match name_index(store, name) {
            Some(i) => is_first_with_name(store, name, i),
            None => forall|j: int| 0 <= j < store.len() ==> (#[trigger] store[j]).name != name,
        },
{
    if name_index(store, name) is None {
        assert forall|j: int| 0 <= j < store.len() implies (#[trigger] store[j]).name != name by {
            if store[j].name == name {
                lemma_some_first_with_name(store, name, j);
            }
        }
    }
}

/// Adding a class never gives two entries the same tag.
pub proof fn lemma_add_class_keeps_tags_distinct(store: Store, name: Seq<char>, tag: Seq<char>)
    requires
        tags_distinct(store),
    ensures
        spec_add_class(store, name, tag) matches Ok(after) ==> tags_distinct(after),
{
}

/// Removing a class never gives two entries the same tag.
pub proof fn lemma_remove_class_keeps_tags_distinct(store: Store, tag: Seq<char>)
    requires
        tags_distinct(store),
    ensures
        spec_remove_class(store, tag) matches Ok(after) ==> tags_distinct(after),
{
    lemma_tag_index(store, tag);
}

/// Changing a tag never gives two entries the same tag.
pub proof fn lemma_change_class_tag_keeps_tags_distinct(
    store: Store,
    from: Seq<char>,
    to: Seq<char>,
)
    requires
        tags_distinct(store),
    ensures
        spec_change_class_tag(store, from, to) matches Ok(after) ==> tags_distinct(after),
{
    lemma_tag_index(store, from);
}

/// Moving a class never gives two entries the same tag.
pub proof fn lemma_move_class_keeps_tags_distinct(
    store: Store,
    tag: Seq<char>,
    position: Seq<char>,
)
    requires
        tags_distinct(store),
    ensures
        spec_move_class(store, tag, position) matches Ok(after) ==> tags_distinct(after),
{
    lemma_tag_index(store, tag);
}

/// Replacing the assignments of one entry never gives two entries the same tag.
pub proof fn lemma_assignments_keep_tags_distinct(
    store: Store,
    i: int,
    assignments: Seq<Seq<char>>,
)
    requires
        tags_distinct(store),
        0 <= i < store.len(),
    ensures
        tags_distinct(with_assignments(store, i, assignments)),
{
}

/// Clearing a class a second time changes nothing, and clearing a class that
/// has no assignments succeeds and changes nothing.
pub proof fn lemma_clear_assignments_idempotent(store: Store, tag: Seq<char>)
    ensures
        spec_clear_assignments(store, tag) matches Ok(after) ==> spec_clear_assignments(after, tag)
            == Ok::<Store, Error>(after),
        tag_index(store, tag) matches Some(i) ==> store[i].class.assignments.len() == 0
            ==> spec_clear_assignments(store, tag) == Ok::<Store, Error>(store),
{
    if let Some(i) = tag_index(store, tag) {
        lemma_tag_index(store, tag);
        let after = with_assignments(store, i, Seq::empty());
        lemma_first_with_tag_is_index(after, tag, i);
        assert(with_assignments(after, i, Seq::empty()) =~= after);
        if store[i].class.assignments.len() == 0 {
            assert(store[i].class.assignments =~= Seq::<Seq<char>>::empty());
            assert(after =~= store);
        }
    }
}

/// Moving up: the first class cannot move, and any other class changes places
/// with the one before it while all others stay where they are.
pub proof fn lemma_move_class_up(store: Store, tag: Seq<char>)
    ensures
        tag_index(store, tag) == Some(0int) ==> spec_move_class(store, tag, up()) == Err::<
            Store,
            Error,
        >(Error::InvalidMovementDirection),
        tag_index(store, tag) matches Some(i) ==> i > 0 ==> {
            &&& spec_move_class(store, tag, up()) matches Ok(after)
            &&& after.len() == store.len()
            &&& after[i - 1] == store[i]
            &&& after[i] == store[i - 1]
            &&& forall|j: int| 0 <= j < store.len() && j != i && j != i - 1 ==> after[j] == store[j]
        },
{
    lemma_tag_index(store, tag);
    assert(up() != down()) by {
        assert(up()[0] != down()[0]);
    }
}

/// Moving down: the last class cannot move, and any other class changes places
/// with the one behind it while all others stay where they are.
pub proof fn lemma_move_class_down(store: Store, tag: Seq<char>)
    ensures
        tag_index(store, tag) == Some(store.len() - 1) ==> spec_move_class(store, tag, down())
            == Err::<Store, Error>(Error::InvalidMovementDirection),
        tag_index(store, tag) matches Some(i) ==> i + 1 < store.len() ==> {
            &&& spec_move_class(store, tag, down()) matches Ok(after)
            &&& after.len() == store.len()
            &&& after[i + 1] == store[i]
            &&& after[i] == store[i + 1]
            &&& forall|j: int| 0 <= j < store.len() && j != i && j != i + 1 ==> after[j] == store[j]
        },
{
    lemma_tag_index(store, tag);
    assert(up() != down()) by {
        assert(up()[0] != down()[0]);
    }
}

/// The numbers that address an assignment run from one to the count: number
/// one takes the first assignment out, zero and the count plus one are refused.
pub proof fn lemma_remove_assignment_bounds(store: Store, tag: Seq<char>)
    ensures
        tag_index(store, tag) matches Some(i) ==> {
            let assignments = store[i].class.assignments;
            &&& spec_remove_assignment(store, tag, 0) == Err::<Store, Error>(
                Error::InvalidAssignmentIndex,
            )
            &&& spec_remove_assignment(store, tag, assignments.len() + 1) == Err::<Store, Error>(
                Error::InvalidAssignmentIndex,
            )
            &&& assignments.len() > 0 ==> spec_remove_assignment(store, tag, 1) == Ok::<
                Store,
                Error,
            >(with_assignments(store, i, assignments.drop_first()))
        },
{
}

/// No command gives two entries the same tag.
pub proof fn lemma_change_keeps_tags_distinct(store: Store, change: Change)
    requires
        tags_distinct(store),
    ensures
        tags_distinct(after(store, change)),
{
    match change {
        Change::AddClass { name, tag } => lemma_add_class_keeps_tags_distinct(store, name, tag),
        Change::RemoveClass { tag } => lemma_remove_class_keeps_tags_distinct(store, tag),
        Change::ChangeClassTag { from, to } => lemma_change_class_tag_keeps_tags_distinct(
            store,
            from,
            to,
        ),
        Change::MoveClass { tag, position } => lemma_move_class_keeps_tags_distinct(
            store,
            tag,
            position,
        ),
        Change::AddAssignment { tag, text } => {
            if let Some(i) = tag_index(store, tag) {
                lemma_tag_index(store, tag);
                lemma_assignments_keep_tags_distinct(
                    store,
                    i,
                    store[i].class.assignments.push(text),
                );
            }
        },
        Change::RemoveAssignment { tag, number } => {
            if let Some(i) = tag_index(store, tag) {
                lemma_tag_index(store, tag);
                lemma_assignments_keep_tags_distinct(
                    store,
                    i,
                    store[i].class.assignments.remove(number - 1),
                );
            }
        },
        Change::ClearAssignments { tag } => {
            if let Some(i) = tag_index(store, tag) {
                lemma_tag_index(store, tag);
                lemma_assignments_keep_tags_distinct(store, i, Seq::empty());
            }
        },
    }
}

/// No command gives two entries the same name.
pub proof fn lemma_change_keeps_names_distinct(store: Store, change: Change)
    requires
        names_distinct(store),
    ensures
        names_distinct(after(store, change)),
{
    let changed = after(store, change);
    match change {
        Change::AddClass { name, .. } => {
            lemma_name_index(store, name);
        },
        Change::RemoveClass { tag } => {
            lemma_tag_index(store, tag);
        },
        Change::MoveClass { tag, .. } => {
            lemma_tag_index(store, tag);
        },
        Change::ChangeClassTag { from, .. } => {
            lemma_tag_index(store, from);
            lemma_same_names_distinct(store, changed);
        },
        Change::AddAssignment { tag, .. } => {
            lemma_tag_index(store, tag);
            lemma_same_names_distinct(store, changed);
        },
        Change::RemoveAssignment { tag, .. } => {
            lemma_tag_index(store, tag);
            lemma_same_names_distinct(store, changed);
        },
        Change::ClearAssignments { tag } => {
            lemma_tag_index(store, tag);
            lemma_same_names_distinct(store, changed);
        },
    }
}

/// A store with the same names in the same places has distinct names if the
/// other has.
proof fn lemma_same_names_distinct(store: Store, changed: Store)
    requires
        names_distinct(store),
        changed.len() == store.len(),
        forall|i: int| 0 <= i < store.len() ==> (#[trigger] changed[i]).name == store[i].name,
    ensures
        names_distinct(changed),
{
}

/// Whatever commands are given in whatever order, with whatever arguments: a
/// store in which no two entries have the same tag stays such a store.
pub proof fn lemma_changes_keep_tags_distinct(store: Store, changes: Seq<Change>)
    requires
        tags_distinct(store),
    ensures
        tags_distinct(after_all(store, changes)),
    decreases changes.len(),
{
    if changes.len() > 0 {
        lemma_changes_keep_tags_distinct(store, changes.drop_last());
        lemma_change_keeps_tags_distinct(after_all(store, changes.drop_last()), changes.last());
    }
}

/// Whatever commands are given in whatever order, with whatever arguments: a
/// store in which no two entries have the same name stays such a store.
pub proof fn lemma_changes_keep_names_distinct(store: Store, changes: Seq<Change>)
    requires
        names_distinct(store),
    ensures
        names_distinct(after_all(store, changes)),
    decreases changes.len(),
{
    if changes.len() > 0 {
        lemma_changes_keep_names_distinct(store, changes.drop_last());
        lemma_change_keeps_names_distinct(after_all(store, changes.drop_last()), changes.last());
    }
}

/// In a store that began without classes no two entries have the same tag or
/// the same name, whatever commands it has been given since.
pub proof fn lemma_distinct_from_empty(changes: Seq<Change>)
    ensures
        tags_distinct(after_all(Store::empty(), changes)),
        names_distinct(after_all(Store::empty(), changes)),
{
    lemma_changes_keep_tags_distinct(Store::empty(), changes);
    lemma_changes_keep_names_distinct(Store::empty(), changes);
}

} // verus!
