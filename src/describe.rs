use std::collections::{BTreeMap, BTreeSet, HashMap, HashSet};
use std::borrow::Cow;
use std::rc::Rc;
use std::sync::Arc;

use vstd::prelude::*;

use crate::name::{NameView, SchemaName};
use crate::schema::{MapSchema, Schema, SchemaItem, SeqSchema, SimpleSchema};

verus! {

/// The names of a registry after `name` is registered: unchanged when it is
/// already there, else with `name` at the end.
pub open spec fn register_name(names: Seq<NameView>, name: NameView) -> Seq<NameView> {
    if names.contains(name) {
        names
    } else {
        names.push(name)
    }
}

/// The names of a registry after registering each name of `walk` in turn.
pub open spec fn register_walk(names: Seq<NameView>, walk: Seq<NameView>) -> Seq<NameView>
    decreases walk.len(),
{
    if walk.len() == 0 {
        names
    } else {
        register_name(register_walk(names, walk.drop_last()), walk.last())
    }
}

/// The names of a table of named schemas, in order.
pub open spec fn item_names(items: Seq<(SchemaName, Schema)>) -> Seq<NameView> {
    Seq::new(items.len(), |i: int| items[i].0@)
}

/// The schema that a table holds under `name`, if any.
pub open spec fn registered(items: Seq<(SchemaName, Schema)>, name: NameView) -> Option<Schema> {
    if item_names(items).contains(name) {
        Some(items[item_names(items).index_of(name)].1)
    } else {
        None
    }
}

/// The schema under `name` in a table where no name occurs twice.
pub fn find_registered<'a>(items: &'a Vec<(SchemaName, Schema)>, name: &SchemaName) -> (r: Option<
    &'a Schema,
>)
    requires
        item_names(items@).no_duplicates(),
    ensures
        match registered(items@, name@) {
            Some(s) => r == Some(&s),
            None => r is None,
        },
{
    let mut i: usize = 0;
    while i < items.len()
        invariant
            i <= items.len(),
            item_names(items@).no_duplicates(),
            forall|j: int| 0 <= j < i ==> items@[j].0@ != name@,
        decreases items.len() - i,
    {
        if items[i].0.same(name) {
            let ghost names = item_names(items@);
            assert(names[i as int] == name@);
            assert(names.contains(name@));
            let ghost k = names.index_of(name@);
            assert(0 <= k < names.len() && names[k] == name@);
            assert(names[k] == items@[k].0@);
            assert(k == i as int) by {
                if k != i as int {
                    assert(names[k] != names[i as int]);
                }
            }
            return Some(&items[i].1);
        }
        i = i + 1;
    }
    assert(!item_names(items@).contains(name@)) by {
        if item_names(items@).contains(name@) {
            let k = choose|k: int| 0 <= k < items.len() && item_names(items@)[k] == name@;
            assert(items@[k].0@ == name@);
        }
    }
    None
}

/// A registry of named schemas, built while describing one root type, with
/// the root itself. Each name is registered at most once.
#[derive(Debug)]
pub struct Description {
    pub schema: SchemaItem,
    pub items: Vec<(SchemaName, Schema)>,
}

impl Description {
    /// The registered names, in order of registration.
    pub open spec fn names(&self) -> Seq<NameView> {
        item_names(self.items@)
    }

    /// No name is registered twice.
    pub open spec fn wf(&self) -> bool {
        self.names().no_duplicates()
    }

    /// The schema registered under `name`, if any.
    pub open spec fn lookup(&self, name: NameView) -> Option<Schema> {
        registered(self.items@, name)
    }

    /// An empty registry for the given root.
    pub fn new(schema: SchemaItem) -> (r: Description)
        ensures
            r.wf(),
            r.schema == schema,
            r.items@.len() == 0,
    {
        let r = Description { schema, items: Vec::new() };
        assert(r.names() =~= Seq::empty());
        r
    }

    /// Whether no name is registered twice.
    pub fn is_well_formed(&self) -> (r: bool)
        ensures
            r == self.wf(),
    {
        let ghost names = self.names();
        let mut i: usize = 0;
        while i < self.items.len()
            invariant
                i <= self.items.len(),
                names == self.names(),
                names.take(i as int).no_duplicates(),
            decreases self.items.len() - i,
        {
            let mut j: usize = 0;
            while j < i
                invariant
                    j <= i < self.items.len(),
                    names == self.names(),
                    forall|k: int| 0 <= k < j ==> names[k] != names[i as int],
                decreases i - j,
            {
                if self.items[j].0.same(&self.items[i].0) {
                    assert(!names.no_duplicates()) by {
                        assert(names[j as int] == names[i as int]);
                    }
                    return false;
                }
                j = j + 1;
            }
            assert(names.take(i + 1).no_duplicates()) by {
                assert forall|a: int, b: int|
                    0 <= a < i + 1 && 0 <= b < i + 1 && a != b implies #[trigger] names.take(
                        i + 1,
                    )[a] != #[trigger] names.take(i + 1)[b] by {
                    if a < i && b < i {
                        assert(names.take(i as int)[a] != names.take(i as int)[b]);
                    }
                }
            }
            i = i + 1;
        }
        assert(names.take(self.items.len() as int) =~= names);
        true
    }

    /// Whether `name` is registered.
    pub fn contains(&self, name: &SchemaName) -> (r: bool)
        ensures
            r == self.names().contains(name@),
    {
        let mut i: usize = 0;
        while i < self.items.len()
            invariant
                i <= self.items.len(),
                forall|j: int| 0 <= j < i ==> self.items[j].0@ != name@,
            decreases self.items.len() - i,
        {
            if self.items[i].0.same(name) {
                assert(self.names()[i as int] == name@);
                return true;
            }
            i = i + 1;
        }
        assert(!self.names().contains(name@)) by {
            if self.names().contains(name@) {
                let k = choose|k: int| 0 <= k < self.names().len() && self.names()[k] == name@;
                assert(self.items[k].0@ == name@);
            }
        }
        false
    }

    /// Registers `name` with the schema that `schema` builds, unless `name`
    /// is registered already; then nothing changes and `schema` is not
    /// called. Returns whether `name` was new: a registration routine goes
    /// on to the types it contains only then, which ends the walk over a
    /// recursive type.
    pub fn add<F: FnOnce() -> Schema>(&mut self, name: SchemaName, schema: F) -> (added: bool)
        requires
            old(self).wf(),
            schema.requires(()),
        ensures
            added == !old(self).names().contains(name@),
            final(self).wf(),
            final(self).schema == old(self).schema,
            final(self).names() == register_name(old(self).names(), name@),
            old(self).names().contains(name@) ==> final(self).items@ == old(self).items@,
            !old(self).names().contains(name@) ==> {
                &&& final(self).items@.len() == old(self).items@.len() + 1
                &&& final(self).items@.take(old(self).items@.len() as int) == old(self).items@
                &&& final(self).items@.last().0 == name
                &&& schema.ensures((), final(self).items@.last().1)
            },
    {
        if self.contains(&name) {
            return false;
        }
        let built = schema();
        let ghost before = self.names();
        self.items.push((name, built));
        assert(self.names() =~= before.push(name@));
        assert(self.items@.take(self.items@.len() - 1) =~= old(self).items@);
        true
    }
}

/// Registering the names of any walk over a type graph, in which a name may
/// come up any number of times (as it does in a recursive type), leaves
/// exactly one entry per distinct name: the registry holds no name twice,
/// and it holds precisely the names it held before and those of the walk.
pub proof fn lemma_registration_walk(names: Seq<NameView>, walk: Seq<NameView>)
    requires
        names.no_duplicates(),
    ensures
        register_walk(names, walk).no_duplicates(),
        forall|n: NameView|
            register_walk(names, walk).contains(n) <==> (names.contains(n) || walk.contains(n)),
    decreases walk.len(),
{
    if walk.len() > 0 {
        let rest = walk.drop_last();
        lemma_registration_walk(names, rest);
        let before = register_walk(names, rest);
        let last = walk.last();
        assert forall|n: NameView|
            register_walk(names, walk).contains(n) <==> (names.contains(n) || walk.contains(
                n,
            )) by {
            if walk.contains(n) && !rest.contains(n) {
                let k = choose|k: int| 0 <= k < walk.len() && walk[k] == n;
                if k < walk.len() - 1 {
                    assert(rest[k] == n);
                }
                assert(n == last);
            }
            if rest.contains(n) {
                let k = choose|k: int| 0 <= k < rest.len() && rest[k] == n;
                assert(walk[k] == n);
            }
            if !before.contains(last) {
                assert(before.push(last)[before.len() as int] == last);
                if before.contains(n) {
                    let k = choose|k: int| 0 <= k < before.len() && before[k] == n;
                    assert(before.push(last)[k] == n);
                }
                if before.push(last).contains(n) && n != last {
                    let k = choose|k: int| 0 <= k < before.len() + 1 && before.push(last)[k] == n;
                    assert(before[k] == n);
                }
            }
            assert(walk[walk.len() - 1] == last);
        }
    }
}

/// A type that can describe its own shape.
///
/// An edge of the type graph that can lead back to an ancestor must be
/// written as a `SchemaItem::Named` reference in `schema`, never inline:
/// only registration, whose entries are added once per name, ends on a cycle.
pub trait Describe {
    /// The type's name, with the names of its type arguments.
    fn schema_name() -> SchemaName;

    /// The schema at a position of this type: by default a reference to
    /// `schema_name`.
    fn schema() -> SchemaItem {
        SchemaItem::Named(Self::schema_name())
    }

    /// Registers every named schema that this type depends on: its own
    /// entry first, and, only when that entry was new, those of the types it
    /// contains.
    fn add_schema(map: &mut Description)
        requires
            old(map).wf(),
        ensures
            final(map).wf(),
            final(map).schema == old(map).schema,
            forall|n: NameView| old(map).names().contains(n) ==> final(map).names().contains(n),
    {
    }

    /// A registry rooted at this type with all that it depends on.
    fn describe() -> (r: Description)
        ensures
            r.wf(),
    {
        let mut map = Description::new(Self::schema());
        Self::add_schema(&mut map);
        map
    }
}

impl Describe for () {
    fn schema_name() -> SchemaName {
        SchemaName::new(String::from_str("unit"))
    }

    fn schema() -> SchemaItem {
        SchemaItem::simple(SimpleSchema::Unit)
    }
}

impl Describe for bool {
    fn schema_name() -> SchemaName {
        SchemaName::new(String::from_str("bool"))
    }

    fn schema() -> SchemaItem {
        SchemaItem::simple(SimpleSchema::Bool)
    }
}

impl Describe for u8 {
    fn schema_name() -> SchemaName {
        SchemaName::new(String::from_str("u8"))
    }

    fn schema() -> SchemaItem {
        SchemaItem::simple(SimpleSchema::U8)
    }
}

impl Describe for u16 {
    fn schema_name() -> SchemaName {
        SchemaName::new(String::from_str("u16"))
    }

    fn schema() -> SchemaItem {
        SchemaItem::simple(SimpleSchema::U16)
    }
}

impl Describe for u32 {
    fn schema_name() -> SchemaName {
        SchemaName::new(String::from_str("u32"))
    }

    fn schema() -> SchemaItem {
        SchemaItem::simple(SimpleSchema::U32)
    }
}

impl Describe for u64 {
    fn schema_name() -> SchemaName {
        SchemaName::new(String::from_str("u64"))
    }

    fn schema() -> SchemaItem {
        SchemaItem::simple(SimpleSchema::U64)
    }
}

impl Describe for usize {
    fn schema_name() -> SchemaName {
        SchemaName::new(String::from_str("usize"))
    }

    fn schema() -> SchemaItem {
        SchemaItem::simple(SimpleSchema::U64)
    }
}

impl Describe for u128 {
    fn schema_name() -> SchemaName {
        SchemaName::new(String::from_str("u128"))
    }

    fn schema() -> SchemaItem {
        SchemaItem::simple(SimpleSchema::U128)
    }
}

impl Describe for i8 {
    fn schema_name() -> SchemaName {
        SchemaName::new(String::from_str("i8"))
    }

    fn schema() -> SchemaItem {
        SchemaItem::simple(SimpleSchema::I8)
    }
}

impl Describe for i16 {
    fn schema_name() -> SchemaName {
        SchemaName::new(String::from_str("i16"))
    }

    fn schema() -> SchemaItem {
        SchemaItem::simple(SimpleSchema::I16)
    }
}

impl Describe for i32 {
    fn schema_name() -> SchemaName {
        SchemaName::new(String::from_str("i32"))
    }

    fn schema() -> SchemaItem {
        SchemaItem::simple(SimpleSchema::I32)
    }
}

impl Describe for i64 {
    fn schema_name() -> SchemaName {
        SchemaName::new(String::from_str("i64"))
    }

    fn schema() -> SchemaItem {
        SchemaItem::simple(SimpleSchema::I64)
    }
}

impl Describe for isize {
    fn schema_name() -> SchemaName {
        SchemaName::new(String::from_str("isize"))
    }

    fn schema() -> SchemaItem {
        SchemaItem::simple(SimpleSchema::I64)
    }
}

impl Describe for i128 {
    fn schema_name() -> SchemaName {
        SchemaName::new(String::from_str("i128"))
    }

    fn schema() -> SchemaItem {
        SchemaItem::simple(SimpleSchema::I128)
    }
}

impl Describe for char {
    fn schema_name() -> SchemaName {
        SchemaName::new(String::from_str("char"))
    }

    fn schema() -> SchemaItem {
        SchemaItem::simple(SimpleSchema::Char)
    }
}

impl Describe for String {
    fn schema_name() -> SchemaName {
        SchemaName::new(String::from_str("str"))
    }

    fn schema() -> SchemaItem {
        SchemaItem::simple(SimpleSchema::String)
    }
}

impl Describe for str {
    fn schema_name() -> SchemaName {
        SchemaName::new(String::from_str("str"))
    }

    fn schema() -> SchemaItem {
        SchemaItem::simple(SimpleSchema::String)
    }
}

impl<T: Describe> Describe for Vec<T> {
    fn schema_name() -> SchemaName {
        SchemaName::new(String::from_str("std::vec::Vec")).argument(T::schema_name())
    }

    fn schema() -> SchemaItem {
        SchemaItem::inline(Schema::Sequence(SeqSchema::new(T::schema())))
    }

    fn add_schema(map: &mut Description) {
        T::add_schema(map);
    }
}

impl<T: Describe> Describe for [T] {
    fn schema_name() -> SchemaName {
        SchemaName::new(String::from_str("std::slice")).argument(T::schema_name())
    }

    fn schema() -> SchemaItem {
        SchemaItem::inline(Schema::Sequence(SeqSchema::new(T::schema())))
    }

    fn add_schema(map: &mut Description) {
        T::add_schema(map);
    }
}

impl<T: Describe> Describe for BTreeSet<T> {
    fn schema_name() -> SchemaName {
        SchemaName::new(String::from_str("std::collections::BTreeSet")).argument(T::schema_name())
    }

    fn schema() -> SchemaItem {
        SchemaItem::inline(Schema::Sequence(SeqSchema::new(T::schema())))
    }

    fn add_schema(map: &mut Description) {
        T::add_schema(map);
    }
}

impl<T: Describe> Describe for HashSet<T> {
    fn schema_name() -> SchemaName {
        SchemaName::new(String::from_str("std::collections::HashSet")).argument(T::schema_name())
    }

    fn schema() -> SchemaItem {
        SchemaItem::inline(Schema::Sequence(SeqSchema::new(T::schema())))
    }

    fn add_schema(map: &mut Description) {
        T::add_schema(map);
    }
}

impl<K: Describe, V: Describe> Describe for BTreeMap<K, V> {
    fn schema_name() -> SchemaName {
        SchemaName::new(String::from_str("std::collections::BTreeMap"))
            .argument(K::schema_name())
            .argument(V::schema_name())
    }

    fn schema() -> SchemaItem {
        SchemaItem::inline(Schema::Mapping(MapSchema::new(K::schema(), V::schema())))
    }

    fn add_schema(map: &mut Description) {
        K::add_schema(map);
        V::add_schema(map);
    }
}

impl<K: Describe, V: Describe> Describe for HashMap<K, V> {
    fn schema_name() -> SchemaName {
        SchemaName::new(String::from_str("std::collections::HashMap"))
            .argument(K::schema_name())
            .argument(V::schema_name())
    }

    fn schema() -> SchemaItem {
        SchemaItem::inline(Schema::Mapping(MapSchema::new(K::schema(), V::schema())))
    }

    fn add_schema(map: &mut Description) {
        K::add_schema(map);
        V::add_schema(map);
    }
}

impl<T: Describe + ?Sized> Describe for &T {
    fn schema_name() -> SchemaName {
        T::schema_name()
    }

    fn schema() -> SchemaItem {
        T::schema()
    }

    fn add_schema(map: &mut Description) {
        T::add_schema(map);
    }
}

impl<T: Describe + ?Sized> Describe for &mut T {
    fn schema_name() -> SchemaName {
        T::schema_name()
    }

    fn schema() -> SchemaItem {
        T::schema()
    }

    fn add_schema(map: &mut Description) {
        T::add_schema(map);
    }
}

impl<T: Describe + ?Sized> Describe for Box<T> {
    fn schema_name() -> SchemaName {
        T::schema_name()
    }

    fn schema() -> SchemaItem {
        T::schema()
    }

    fn add_schema(map: &mut Description) {
        T::add_schema(map);
    }
}

impl<T: Describe + ?Sized> Describe for Rc<T> {
    fn schema_name() -> SchemaName {
        T::schema_name()
    }

    fn schema() -> SchemaItem {
        T::schema()
    }

    fn add_schema(map: &mut Description) {
        T::add_schema(map);
    }
}

impl<T: Describe + ?Sized> Describe for Arc<T> {
    fn schema_name() -> SchemaName {
        T::schema_name()
    }

    fn schema() -> SchemaItem {
        T::schema()
    }

    fn add_schema(map: &mut Description) {
        T::add_schema(map);
    }
}

impl<T: Describe + Clone> Describe for Cow<'_, T> {
    fn schema_name() -> SchemaName {
        T::schema_name()
    }

    fn schema() -> SchemaItem {
        T::schema()
    }

    fn add_schema(map: &mut Description) {
        T::add_schema(map);
    }
}

} // verus!
