//! The store: class records by class name, in the order in which they are
//! shown. Classes are addressed by tag; where several classes should have the
//! same tag, the first in order is meant.
use crate::model::{
    has_tag, has_tag_elsewhere, is_first_with_name, is_first_with_tag,
    lemma_first_with_name_is_index, lemma_first_with_tag_is_index, lemma_tag_index, name_index,
    tag_index, with_class, ClassEntry, ClassView, Store,
};
use crate::ordered_map::{
    entries, get_index, get_index_mut, is_first_with_key, key_index, len, new_map,
};
use crate::text::texts;
use indexmap::IndexMap;
use vstd::prelude::*;
use vstd::string::StringExecFns;

verus! {

/// Where the data directory lies, below the user's home directory.
pub const DATA_DIR: &'static str = "/.local/share/homework_organizer";

/// Where the data file lies, below the data directory.
pub const DATA_FILE_DIR: &'static str = "/data.json";

/// The record of one class.
#[derive(Debug, PartialEq, Eq)]
pub struct ClassData {
    /// The short word by which commands address the class.
    pub tag: String,
    /// What is to be done for the class, oldest first.
    pub assignments: Vec<String>,
}

impl View for ClassData {
    type V = ClassView;

    open spec fn view(&self) -> ClassView {
        ClassView { tag: self.tag@, assignments: texts(self.assignments@) }
    }
}

impl Clone for ClassData {
    /// A record with the same tag and the same assignments.
    fn clone(&self) -> (copy: ClassData)
        ensures
            copy@ == self@,
    {
        ClassData { tag: self.tag.clone(), assignments: self.assignments.clone() }
    }
}

impl ClassData {
    /// A record with the given tag and assignments.
    pub fn new(tag: &str, assignments: Vec<String>) -> (class: ClassData)
        ensures
            class@ == (ClassView { tag: tag@, assignments: texts(assignments@) }),
    {
        ClassData { tag: String::from_str(tag), assignments }
    }
}

/// The classes of one user with their assignments, in display order.
pub struct DataFile {
    /// The records by class name, in display order.
    pub content: IndexMap<String, ClassData>,
}

/// The entry that a key-value pair of the map stands for.
pub open spec fn entry_of(pair: (String, ClassData)) -> ClassEntry {
    ClassEntry { name: pair.0@, class: pair.1@ }
}

/// The store that a sequence of key-value pairs stands for.
pub open spec fn store_of(pairs: Seq<(String, ClassData)>) -> Store {
    pairs.map_values(|pair: (String, ClassData)| entry_of(pair))
}

impl View for DataFile {
    type V = Store;

    open spec fn view(&self) -> Store {
        store_of(entries(self.content))
    }
}

/// Whoever is first with a key is what `key_index` finds.
pub proof fn lemma_first_with_key_is_index(pairs: Seq<(String, ClassData)>, key: Seq<char>, i: int)
    requires
        is_first_with_key(pairs, key, i),
    ensures
        key_index(pairs, key) == Some(i),
{
}

/// A key is found among the pairs where its name is found among the entries.
pub proof fn lemma_key_index_is_name_index(pairs: Seq<(String, ClassData)>, key: Seq<char>)
    ensures
        key_index(pairs, key) == name_index(store_of(pairs), key),
{
    let store = store_of(pairs);
    assert forall|i: int| is_first_with_key(pairs, key, i) <==> is_first_with_name(
        store,
        key,
        i,
    ) by {
        if is_first_with_name(store, key, i) {
            assert forall|j: int| 0 <= j < i implies pairs[j].0@ != key by {
                assert(store[j].name != key);
            }
        }
    }
    if exists|i: int| is_first_with_key(pairs, key, i) {
        let i = choose|i: int| is_first_with_key(pairs, key, i);
        lemma_first_with_key_is_index(pairs, key, i);
        lemma_first_with_name_is_index(store, key, i);
    }
}

/// Replacing the value of pair `i` replaces the record of entry `i`.
pub proof fn lemma_value_replaced(pairs: Seq<(String, ClassData)>, i: int, value: ClassData)
    requires
        0 <= i < pairs.len(),
    ensures
        store_of(pairs.update(i, (pairs[i].0, value))) == with_class(store_of(pairs), i, value@),
{
}

/// The directory that holds the data file of the user whose home is `home_dir`.
pub fn data_dir(home_dir: &str) -> (path: String)
    ensures
        path@ == home_dir@ + DATA_DIR@,
{
    String::from_str(home_dir).concat(DATA_DIR)
}

/// The data file of the user whose home is `home_dir`.
pub fn data_file_path(home_dir: &str) -> (path: String)
    ensures
        path@ == home_dir@ + DATA_DIR@ + DATA_FILE_DIR@,
{
    data_dir(home_dir).concat(DATA_FILE_DIR)
}

/// A position in a store, as the model counts it.
pub open spec fn position(index: Option<usize>) -> Option<int> {
    match index {
        Some(i) => Some(i as int),
        None => None,
    }
}

impl DataFile {
    /// A store without classes.
    pub fn new() -> (data_file: DataFile)
        ensures
            data_file@ == Store::empty(),
    {
        DataFile { content: new_map() }
    }

    /// The name of the first class with the given tag, and its record to work on.
    /// What the caller leaves in the record is what the store holds for that
    /// class afterwards; nothing else in the store changes.
    pub fn find_class_from_tag<'a>(
        &'a mut self,
        class_tag: &str,
    ) -> (found: Option<(String, &'a mut ClassData)>)
        ensures
            match found {
                Some((name, class)) => {
                    &&& tag_index(old(self)@, class_tag@) matches Some(i)
                    &&& name@ == old(self)@[i].name
                    &&& class@ == old(self)@[i].class
                    &&& final(self)@ == with_class(old(self)@, i, final(class)@)
                },
                None => tag_index(old(self)@, class_tag@) is None && final(self)@ == old(self)@,
            },
    {
        let ghost pairs = entries(self.content);
        match self.find_class_index_from_tag(class_tag) {
            Some(index) => {
                match get_index_mut(&mut self.content, index) {
                    Some((name, class)) => {
                        proof {
                            lemma_value_replaced(pairs, index as int, *final(class));
                        }
                        Some((name.clone(), class))
                    },
                    None => None,
                }
            },
            None => None,
        }
    }

    /// The position of the first class with the given tag.
    pub fn find_class_index_from_tag(&self, class_tag: &str) -> (found: Option<usize>)
        ensures
            position(found) == tag_index(self@, class_tag@),
    {
        let wanted: String = String::from_str(class_tag);
        let count: usize = len(&self.content);
        let mut index: usize = 0;
        while index < count
            invariant
                count == self@.len(),
                index <= count,
                wanted@ == class_tag@,
                forall|j: int| 0 <= j < index ==> self@[j].class.tag != class_tag@,
            decreases count - index,
        {
            match get_index(&self.content, index) {
                Some((_, class)) => {
                    if class.tag == wanted {
                        proof {
                            lemma_first_with_tag_is_index(self@, class_tag@, index as int);
                        }
                        return Some(index);
                    }
                },
                None => {},
            }
            index = index + 1;
        }
        proof {
            lemma_tag_index(self@, class_tag@);
        }
        None
    }

    /// Whether some class other than the one at `skip` has the given tag.
    pub fn tag_exists_elsewhere(&self, class_tag: &str, skip: Option<usize>) -> (exists: bool)
        ensures
            exists == has_tag_elsewhere(self@, class_tag@, position(skip)),
    {
        let wanted: String = String::from_str(class_tag);
        let count: usize = len(&self.content);
        let mut index: usize = 0;
        while index < count
            invariant
                count == self@.len(),
                index <= count,
                wanted@ == class_tag@,
                forall|j: int|
                    0 <= j < index && Some(j) != position(skip) ==> (#[trigger] self@[j]).class.tag
                        != class_tag@,
            decreases count - index,
        {
            let skipped = match skip {
                Some(s) => s == index,
                None => false,
            };
            if !skipped {
                match get_index(&self.content, index) {
                    Some((_, class)) => {
                        if class.tag == wanted {
                            assert(self@[index as int].class.tag == class_tag@);
                            return true;
                        }
                    },
                    None => {},
                }
            }
            index = index + 1;
        }
        false
    }

    /// Whether some class has the given tag.
    pub fn tag_already_exists(&self, class_tag: &str) -> (exists: bool)
        ensures
            exists == has_tag(self@, class_tag@),
    {
        proof {
            lemma_tag_index(self@, class_tag@);
        }
        self.find_class_index_from_tag(class_tag).is_some()
    }
}

} // verus!
