use core::cmp::Ordering;

use vstd::prelude::*;

verus! {

/// The mathematical form of a `SchemaName`: a base name and its arguments.
pub struct NameView {
    pub base: Seq<char>,
    pub args: Seq<NameView>,
}

/// A type's qualified identity: a base name and the names of its arguments.
/// Two names are the same when their views are equal.
#[derive(Debug, Ord)]
pub struct SchemaName {
    pub base: String,
    pub args: Vec<SchemaName>,
}

impl SchemaName {
    pub open spec fn view(&self) -> NameView
        decreases self,
    {
        NameView {
            base: self.base@,
            args: Seq::new(
                self.args.len() as nat,
                |i: int|
                    if 0 <= i < self.args.len() {
                        self.args[i].view()
                    } else {
                        NameView { base: Seq::empty(), args: Seq::empty() }
                    },
            ),
        }
    }

    /// A name without arguments.
    pub fn new(name: String) -> (r: SchemaName)
        ensures
            r@.base == name@,
            r@.args.len() == 0,
    {
        SchemaName { base: name, args: Vec::new() }
    }

    /// The same name with one more argument at the end.
    pub fn argument(self, arg: SchemaName) -> (r: SchemaName)
        ensures
            r@ == (NameView { base: self@.base, args: self@.args.push(arg@) }),
    {
        let mut r = self;
        r.args.push(arg);
        assert(r@.args =~= self@.args.push(arg@));
        r
    }

    /// Whether two names are the same: equal base names and equal arguments.
    pub fn same(&self, other: &SchemaName) -> (r: bool)
        ensures
            r == (self@ == other@),
        decreases self,
    {
        if self.base != other.base {
            return false;
        }
        if self.args.len() != other.args.len() {
            assert(self@.args.len() != other@.args.len());
            return false;
        }
        let mut i: usize = 0;
        while i < self.args.len()
            invariant
                self.args.len() == other.args.len(),
                self.base@ == other.base@,
                i <= self.args.len(),
                forall|j: int| 0 <= j < i ==> self.args[j]@ == other.args[j]@,
            decreases self.args.len() - i,
        {
            if !self.args[i].same(&other.args[i]) {
                assert(self@.args[i as int] != other@.args[i as int]);
                return false;
            }
            i = i + 1;
        }
        assert(self@.args =~= other@.args);
        true
    }
}

/// Parts joined with ", " between them.
pub open spec fn joined(parts: Seq<Seq<char>>) -> Seq<char>
    decreases parts.len(),
{
    if parts.len() == 0 {
        Seq::empty()
    } else if parts.len() == 1 {
        parts[0]
    } else {
        joined(parts.drop_last()) + ", "@ + parts.last()
    }
}

/// The texts of the arguments of a name.
pub open spec fn argument_texts(n: NameView) -> Seq<Seq<char>>
    decreases n, 0nat,
{
    Seq::new(
        n.args.len(),
        |i: int|
            if 0 <= i < n.args.len() {
                name_text(n.args[i])
            } else {
                Seq::empty()
            },
    )
}

/// The text of a name: `Base`, or `Base<Arg1, Arg2>` with arguments.
pub open spec fn name_text(n: NameView) -> Seq<char>
    decreases n, 1nat,
{
    if n.args.len() == 0 {
        n.base
    } else {
        n.base + "<"@ + joined(argument_texts(n)) + ">"@
    }
}

impl SchemaName {
    /// The name as text: `Base`, or `Base<Arg1, Arg2>` with arguments.
    pub fn to_string(&self) -> (r: String)
        ensures
            r@ == name_text(self@),
        decreases self,
    {
        if self.args.len() == 0 {
            return self.base.clone();
        }
        let ghost parts = argument_texts(self@);
        let mut out = self.base.clone().concat("<");
        let mut i: usize = 0;
        while i < self.args.len()
            invariant
                i <= self.args.len(),
                parts.len() == self.args.len(),
                forall|j: int| 0 <= j < self.args.len() ==> parts[j] == name_text(self.args[j]@),
                out@ == self.base@ + "<"@ + joined(parts.take(i as int)),
            decreases self.args.len() - i,
        {
            let ghost before = out@;
            let arg = self.args[i].to_string();
            if i == 0 {
                out = out.concat(arg.as_str());
                assert(parts.take(1) =~= seq![parts[0]]);
                assert(joined(parts.take(0)) =~= Seq::<char>::empty());
                assert(out@ =~= self.base@ + "<"@ + joined(parts.take(1)));
            } else {
                out = out.concat(", ").concat(arg.as_str());
                assert(parts.take(i + 1).drop_last() =~= parts.take(i as int));
                assert(out@ =~= self.base@ + "<"@ + joined(parts.take(i + 1)));
            }
            i = i + 1;
        }
        assert(parts.take(self.args.len() as int) =~= parts);
        let r = out.concat(">");
        assert(r@ =~= self@.base + "<"@ + joined(parts) + ">"@);
        r
    }
}

/// Whether a character cannot stand in a base name.
pub open spec fn is_delimiter(c: char) -> bool {
    c == '<' || c == '>' || c == ','
}

/// Whether every base name in `n` is non-empty and free of `<`, `>` and
/// `,`: the names whose text reads back as themselves.
pub open spec fn well_formed_name(n: NameView) -> bool
    decreases n,
{
    &&& n.base.len() > 0
    &&& forall|k: int| 0 <= k < n.base.len() ==> !is_delimiter(#[trigger] n.base[k])
    &&& forall|i: int| 0 <= i < n.args.len() ==> well_formed_name(#[trigger] n.args[i])
}

/// `text` holds the text of `n` from `pos` on, followed by its end, `,` or `>`.
pub open spec fn written_at(text: Seq<char>, pos: int, n: NameView) -> bool {
    let end = pos + name_text(n).len();
    &&& 0 <= pos
    &&& end <= text.len()
    &&& text.subrange(pos, end) == name_text(n)
    &&& (end == text.len() || text[end] == ',' || text[end] == '>')
}

/// The text before the argument at `k` in the joined text of `parts`.
pub open spec fn joined_prefix(parts: Seq<Seq<char>>, k: int) -> Seq<char> {
    if k == 0 {
        Seq::empty()
    } else {
        joined(parts.take(k)) + ", "@
    }
}

/// The text after the argument at `k` in the joined text of `parts`.
pub open spec fn joined_suffix(parts: Seq<Seq<char>>, k: int) -> Seq<char> {
    if k + 1 >= parts.len() {
        Seq::empty()
    } else {
        ", "@ + joined(parts.skip(k + 1))
    }
}

/// The texts of a list of names.
pub open spec fn texts_of(names: Seq<SchemaName>) -> Seq<Seq<char>> {
    Seq::new(names.len(), |i: int| name_text(names[i]@))
}

proof fn lemma_joined_push(parts: Seq<Seq<char>>, t: Seq<char>)
    ensures
        parts.len() == 0 ==> joined(parts.push(t)) == t,
        parts.len() > 0 ==> joined(parts.push(t)) == joined(parts) + ", "@ + t,
{
    assert(parts.push(t).drop_last() =~= parts);
}

proof fn lemma_joined_split(parts: Seq<Seq<char>>, k: int)
    requires
        0 < k < parts.len(),
    ensures
        joined(parts) == joined(parts.take(k)) + ", "@ + joined(parts.skip(k)),
    decreases parts.len(),
{
    let rest = parts.drop_last();
    if k == parts.len() - 1 {
        assert(rest =~= parts.take(k));
        assert(parts.skip(k) =~= seq![parts.last()]);
    } else {
        lemma_joined_split(rest, k);
        assert(rest.take(k) =~= parts.take(k));
        assert(parts.skip(k).drop_last() =~= rest.skip(k));
        assert(parts.skip(k).last() == parts.last());
        assert(joined(parts) =~= joined(parts.take(k)) + ", "@ + joined(parts.skip(k)));
    }
}

proof fn lemma_joined_at(parts: Seq<Seq<char>>, k: int)
    requires
        0 <= k < parts.len(),
    ensures
        joined(parts) == joined_prefix(parts, k) + parts[k] + joined_suffix(parts, k),
        joined(parts.take(k + 1)) == if k == 0 {
            parts[0]
        } else {
            joined(parts.take(k)) + ", "@ + parts[k]
        },
{
    assert(parts.take(k + 1) =~= parts.take(k).push(parts[k]));
    lemma_joined_push(parts.take(k), parts[k]);
    let tail = parts.skip(k);
    if k + 1 < parts.len() {
        lemma_joined_split(tail, 1);
        assert(tail.take(1) =~= seq![parts[k]]);
        assert(tail.skip(1) =~= parts.skip(k + 1));
    } else {
        assert(tail =~= seq![parts[k]]);
    }
    if k > 0 {
        lemma_joined_split(parts, k);
        assert(joined(parts) =~= joined_prefix(parts, k) + parts[k] + joined_suffix(parts, k));
    } else {
        assert(tail =~= parts);
        assert(joined(parts) =~= joined_prefix(parts, k) + parts[k] + joined_suffix(parts, k));
    }
}

/// The end of the base name that starts at `pos`.
fn base_end(text: &str, pos: usize, len: usize) -> (i: usize)
    requires
        len == text@.len(),
        pos <= len,
    ensures
        pos <= i <= len,
        forall|k: int| pos <= k < i ==> !is_delimiter(text@[k]),
        i == len || is_delimiter(text@[i as int]),
{
    let mut i: usize = pos;
    while i < len
        invariant
            pos <= i <= len,
            len == text@.len(),
            forall|k: int| pos <= k < i ==> !is_delimiter(text@[k]),
        decreases len - i,
    {
        let c = text.get_char(i);
        if c == '<' || c == '>' || c == ',' {
            return i;
        }
        i = i + 1;
    }
    i
}

proof fn lemma_base_at(text: Seq<char>, pos: int, i: int, n: NameView)
    requires
        well_formed_name(n),
        written_at(text, pos, n),
        pos <= i <= text.len(),
        forall|k: int| pos <= k < i ==> !is_delimiter(text[k]),
        i == text.len() || is_delimiter(text[i]),
    ensures
        i == pos + n.base.len(),
        text.subrange(pos, i) == n.base,
        n.args.len() > 0 ==> i < text.len() && text[i] == '<',
        n.args.len() == 0 ==> name_text(n) == n.base,
{
    reveal_strlit("<");
    let t = name_text(n);
    let b = pos + n.base.len();
    assert(t.subrange(0, n.base.len() as int) =~= n.base);
    assert forall|k: int| pos <= k < b implies text[k] == n.base[k - pos] by {
        assert(text.subrange(pos, pos + t.len())[k - pos] == t[k - pos]);
    }
    if n.args.len() > 0 {
        assert(t[n.base.len() as int] == '<');
        assert(text.subrange(pos, pos + t.len())[n.base.len() as int] == t[n.base.len() as int]);
    }
    if i < b {
        assert(!is_delimiter(n.base[i - pos]));
    }
    if i > b {
        assert(!is_delimiter(text[b]));
        if n.args.len() == 0 {
            assert(t.len() == n.base.len());
        }
    }
    assert(text.subrange(pos, i) =~= n.base);
}

proof fn lemma_name_layout(v: NameView, k: int)
    requires
        0 <= k < v.args.len(),
    ensures
        name_text(v) == v.base + "<"@ + joined_prefix(argument_texts(v), k) + name_text(v.args[k])
            + joined_suffix(argument_texts(v), k) + ">"@,
        joined_prefix(argument_texts(v), k + 1).len() == joined_prefix(argument_texts(v), k).len()
            + name_text(v.args[k]).len() + 2,
{
    reveal_strlit(", ");
    let parts = argument_texts(v);
    lemma_joined_at(parts, k);
    assert(parts[k] == name_text(v.args[k]));
    if k == 0 {
        assert(joined_prefix(parts, k + 1) =~= parts[0] + ", "@);
    } else {
        assert(joined_prefix(parts, k + 1) =~= joined(parts.take(k)) + ", "@ + parts[k] + ", "@);
    }
    assert(name_text(v) =~= v.base + "<"@ + joined_prefix(parts, k) + parts[k] + joined_suffix(
        parts,
        k,
    ) + ">"@);
}

proof fn lemma_argument_written(text: Seq<char>, pos: int, j: int, v: NameView, k: int)
    requires
        well_formed_name(v),
        written_at(text, pos, v),
        0 <= k < v.args.len(),
        j == pos + v.base.len() + 1 + joined_prefix(argument_texts(v), k).len(),
    ensures
        well_formed_name(v.args[k]),
        written_at(text, j, v.args[k]),
        k + 1 < v.args.len() ==> j + name_text(v.args[k]).len() + 1 < text.len() && text[j
            + name_text(v.args[k]).len()] == ',' && text[j + name_text(v.args[k]).len() + 1]
            == ' ' && j + name_text(v.args[k]).len() + 2 == pos + v.base.len() + 1
            + joined_prefix(argument_texts(v), k + 1).len(),
        k + 1 == v.args.len() ==> j + name_text(v.args[k]).len() < text.len() && text[j
            + name_text(v.args[k]).len()] == '>' && j + name_text(v.args[k]).len() + 1 == pos
            + name_text(v).len(),
{
    reveal_strlit("<");
    reveal_strlit(">");
    reveal_strlit(", ");
    lemma_name_layout(v, k);
    let parts = argument_texts(v);
    let t = name_text(v);
    let a = name_text(v.args[k]);
    let start: int = (v.base.len() + 1 + joined_prefix(parts, k).len()) as int;
    let stop: int = start + a.len();
    assert(t.subrange(start, stop) =~= a);
    assert forall|q: int| 0 <= q < t.len() implies text[pos + q] == t[q] by {
        assert(text.subrange(pos, pos + t.len())[q] == t[q]);
    }
    assert(text.subrange(j, j + a.len()) =~= a);
    if k + 1 < parts.len() {
        assert(t[stop] == ',');
        assert(t[stop + 1] == ' ');
    } else {
        assert(t[stop] == '>');
        assert(t.len() == stop + 1);
    }
}

impl SchemaName {
    /// Reads a name from `text` at `pos`: a base name of characters other
    /// than `<`, `>` and `,`, then possibly `<`, arguments separated by
    /// `, `, and `>`. Returns the name and the position after it.
    fn parse_at(text: &str, pos: usize, len: usize) -> (r: Option<(SchemaName, usize)>)
        requires
            len == text@.len(),
            pos <= len,
        ensures
            r matches Some((n, end)) ==> pos < end <= len && name_text(n@) == text@.subrange(
                pos as int,
                end as int,
            ),
            forall|n: NameView|
                well_formed_name(n) && #[trigger] written_at(text@, pos as int, n) ==> (r matches Some(
                    (m, end),
                ) && m@ == n && end == pos + name_text(n).len()),
        decreases len - pos,
    {
        let i = base_end(text, pos, len);
        proof {
            assert forall|n: NameView|
                well_formed_name(n) && #[trigger] written_at(text@, pos as int, n) implies {
                &&& i == pos + n.base.len()
                &&& text@.subrange(pos as int, i as int) == n.base
                &&& n.args.len() > 0 ==> i < len && text@[i as int] == '<'
                &&& n.args.len() == 0 ==> name_text(n) == n.base
            } by {
                lemma_base_at(text@, pos as int, i as int, n);
            }
        }
        if i == pos {
            return None;
        }
        let base = String::from_str(text.substring_char(pos, i));
        if i == len || text.get_char(i) != '<' {
            let n = SchemaName { base, args: Vec::new() };
            assert forall|v: NameView|
                well_formed_name(v) && #[trigger] written_at(text@, pos as int, v) implies n@ == v by {
                assert(v.args.len() == 0);
                assert(n@.args =~= v.args);
            }
            return Some((n, i));
        }
        let mut args: Vec<SchemaName> = Vec::new();
        let mut j: usize = i + 1;
        loop
            invariant
                pos < i < j <= len,
                len == text@.len(),
                base@ == text@.subrange(pos as int, i as int),
                text@[i as int] == '<',
                args@.len() == 0 ==> j == i + 1,
                args@.len() > 0 ==> text@.subrange(i + 1, j as int) == joined(texts_of(args@))
                    + ", "@,
                forall|v: NameView|
                    well_formed_name(v) && #[trigger] written_at(text@, pos as int, v) ==> {
                        &&& i == pos + v.base.len()
                        &&& base@ == v.base
                        &&& args@.len() < v.args.len()
                        &&& forall|q: int| 0 <= q < args@.len() ==> args@[q]@ == v.args[q]
                        &&& j == i + 1 + joined_prefix(argument_texts(v), args@.len() as int).len()
                    },
            decreases len - j,
        {
            proof {
                assert forall|v: NameView|
                    well_formed_name(v) && #[trigger] written_at(text@, pos as int, v) implies written_at(
                    text@,
                    j as int,
                    v.args[args@.len() as int],
                ) && well_formed_name(v.args[args@.len() as int]) by {
                    lemma_argument_written(text@, pos as int, j as int, v, args@.len() as int);
                }
            }
            let (arg, end) = match Self::parse_at(text, j, len) {
                None => {
                    return None;
                },
                Some(found) => found,
            };
            let ghost before = args@;
            args.push(arg);
            proof {
                assert(texts_of(args@) =~= texts_of(before).push(name_text(arg@)));
                lemma_joined_push(texts_of(before), name_text(arg@));
                assert(text@.subrange(i + 1, end as int) =~= text@.subrange(i + 1, j as int)
                    + text@.subrange(j as int, end as int));
            }
            let ghost j_before = j;
            j = end;
            assert(text@.subrange(i + 1, j as int) == joined(texts_of(args@)));
            proof {
                assert forall|v: NameView|
                    well_formed_name(v) && #[trigger] written_at(text@, pos as int, v) implies {
                    &&& forall|q: int| 0 <= q < args@.len() ==> args@[q]@ == v.args[q]
                    &&& (args@.len() < v.args.len() ==> j + 1 < len && text@[j as int] == ','
                        && text@[j + 1] == ' ' && j + 2 == i + 1 + joined_prefix(
                        argument_texts(v),
                        args@.len() as int,
                    ).len())
                    &&& (args@.len() == v.args.len() ==> j < len && text@[j as int] == '>' && j + 1
                        == pos + name_text(v).len())
                } by {
                    lemma_argument_written(text@, pos as int, j_before as int, v, before.len() as int);
                }
            }
            if j < len && text.get_char(j) == '>' {
                let n = SchemaName { base, args };
                proof {
                    reveal_strlit("<");
                    reveal_strlit(">");
                    assert(argument_texts(n@) =~= texts_of(args@));
                    assert(text@.subrange(pos as int, j + 1) =~= text@.subrange(pos as int, i as int)
                        + "<"@ + text@.subrange(i + 1, j as int) + ">"@);
                    assert forall|v: NameView|
                        well_formed_name(v) && #[trigger] written_at(text@, pos as int, v) implies n@
                        == v by {
                        assert(n@.args =~= v.args);
                    }
                }
                return Some((n, j + 1));
            }
            if j < len - 1 && text.get_char(j) == ',' && text.get_char(j + 1) == ' ' {
                proof {
                    reveal_strlit(", ");
                }
                assert(text@.subrange(i + 1, j + 2) =~= text@.subrange(i + 1, j as int) + ", "@);
                j = j + 2;
            } else {
                return None;
            }
        }
    }

    /// Reads a name written as `to_string` writes it. Whatever it returns
    /// is written back as `text`, and the text of every name whose base
    /// names are non-empty and free of `<`, `>` and `,` is read back as
    /// that name.
    pub fn parse(text: &str) -> (r: Option<SchemaName>)
        ensures
            r matches Some(n) ==> name_text(n@) == text@,
            forall|n: NameView|
                well_formed_name(n) && name_text(n) == text@ ==> (r matches Some(m) && m@ == n),
    {
        let len = text.unicode_len();
        let r = Self::parse_at(text, 0, len);
        proof {
            assert forall|n: NameView|
                well_formed_name(n) && name_text(n) == text@ implies written_at(text@, 0, n) by {
                assert(text@.subrange(0, text@.len() as int) =~= text@);
            }
        }
        match r {
            Some((n, end)) => if end == len {
                assert(text@.subrange(0, len as int) =~= text@);
                Some(n)
            } else {
                None
            },
            None => None,
        }
    }
}

impl PartialEq for SchemaName {
    fn eq(&self, other: &SchemaName) -> (r: bool) {
        self.same(other)
    }
}

impl Eq for SchemaName {
}

impl vstd::std_specs::cmp::PartialEqSpecImpl for SchemaName {
    open spec fn obeys_eq_spec() -> bool {
        true
    }

    open spec fn eq_spec(&self, other: &SchemaName) -> bool {
        self@ == other@
    }
}

/// The order of two texts: character by character, a proper prefix first.
pub open spec fn chars_order(a: Seq<char>, b: Seq<char>) -> Ordering
    decreases a.len(),
{
    if a.len() == 0 {
        if b.len() == 0 {
            Ordering::Equal
        } else {
            Ordering::Less
        }
    } else if b.len() == 0 {
        Ordering::Greater
    } else if a[0] < b[0] {
        Ordering::Less
    } else if a[0] > b[0] {
        Ordering::Greater
    } else {
        chars_order(a.skip(1), b.skip(1))
    }
}

/// The order of two names: by base name, then by their arguments in turn.
pub open spec fn name_order(a: NameView, b: NameView) -> Ordering
    decreases a, 1int,
{
    match chars_order(a.base, b.base) {
        Ordering::Equal => args_order(a.args, b.args, 0),
        o => o,
    }
}

/// The order of two argument lists from position `i` on.
pub open spec fn args_order(a: Seq<NameView>, b: Seq<NameView>, i: int) -> Ordering
    decreases a, a.len() - i,
{
    if i < 0 || i > a.len() || i > b.len() {
        Ordering::Equal
    } else if i == a.len() {
        if i == b.len() {
            Ordering::Equal
        } else {
            Ordering::Less
        }
    } else if i == b.len() {
        Ordering::Greater
    } else {
        match name_order(a[i], b[i]) {
            Ordering::Equal => args_order(a, b, i + 1),
            o => o,
        }
    }
}

/// The opposite of an ordering.
pub open spec fn flipped(o: Ordering) -> Ordering {
    match o {
        Ordering::Less => Ordering::Greater,
        Ordering::Equal => Ordering::Equal,
        Ordering::Greater => Ordering::Less,
    }
}

proof fn lemma_chars_order(a: Seq<char>, b: Seq<char>)
    ensures
        (chars_order(a, b) == Ordering::Equal) == (a == b),
        chars_order(b, a) == flipped(chars_order(a, b)),
    decreases a.len(),
{
    if a.len() > 0 && b.len() > 0 && a[0] == b[0] {
        lemma_chars_order(a.skip(1), b.skip(1));
        if a.skip(1) == b.skip(1) {
            assert(a =~= seq![a[0]] + a.skip(1));
            assert(b =~= seq![b[0]] + b.skip(1));
        }
        if a == b {
            assert(a.skip(1) =~= b.skip(1));
        }
    } else if a.len() > 0 && b.len() > 0 {
        assert(a[0] != b[0]);
    } else if a.len() == 0 && b.len() > 0 {
        assert(a != b);
    } else if a.len() > 0 && b.len() == 0 {
        assert(a != b);
    } else {
        assert(a =~= b);
    }
}

proof fn lemma_args_order(a: Seq<NameView>, b: Seq<NameView>, i: int)
    requires
        0 <= i <= a.len(),
        i <= b.len(),
    ensures
        (args_order(a, b, i) == Ordering::Equal) == (a.len() == b.len() && forall|k: int|
            i <= k < a.len() ==> a[k] == b[k]),
        args_order(b, a, i) == flipped(args_order(a, b, i)),
    decreases a, a.len() - i,
{
    if i < a.len() && i < b.len() {
        lemma_name_order(a[i], b[i]);
        lemma_args_order(a, b, i + 1);
        if a.len() == b.len() && forall|k: int| i + 1 <= k < a.len() ==> a[k] == b[k] {
            if a[i] == b[i] {
                assert forall|k: int| i <= k < a.len() implies a[k] == b[k] by {}
            }
        }
    }
}

/// Two names compare as equal exactly when they are the same name, and
/// swapping them reverses the order.
pub proof fn lemma_name_order(a: NameView, b: NameView)
    ensures
        (name_order(a, b) == Ordering::Equal) == (a == b),
        name_order(b, a) == flipped(name_order(a, b)),
    decreases a, 1int,
{
    lemma_chars_order(a.base, b.base);
    if a.base == b.base {
        lemma_args_order(a.args, b.args, 0);
        if a.args.len() == b.args.len() && forall|k: int| 0 <= k < a.args.len() ==> a.args[k] == b.args[k] {
            assert(a.args =~= b.args);
        }
    }
}

proof fn lemma_chars_order_transitive(a: Seq<char>, b: Seq<char>, c: Seq<char>)
    requires
        chars_order(a, b) != Ordering::Greater,
        chars_order(b, c) != Ordering::Greater,
    ensures
        chars_order(a, c) != Ordering::Greater,
        (chars_order(a, b) == Ordering::Less || chars_order(b, c) == Ordering::Less) ==> chars_order(
            a,
            c,
        ) == Ordering::Less,
    decreases a.len(),
{
    if a.len() > 0 && b.len() > 0 && c.len() > 0 && a[0] == b[0] && b[0] == c[0] {
        lemma_chars_order_transitive(a.skip(1), b.skip(1), c.skip(1));
    }
}

proof fn lemma_args_order_transitive(a: Seq<NameView>, b: Seq<NameView>, c: Seq<NameView>, i: int)
    requires
        0 <= i <= a.len(),
        i <= b.len(),
        i <= c.len(),
        args_order(a, b, i) != Ordering::Greater,
        args_order(b, c, i) != Ordering::Greater,
    ensures
        args_order(a, c, i) != Ordering::Greater,
        (args_order(a, b, i) == Ordering::Less || args_order(b, c, i) == Ordering::Less)
            ==> args_order(a, c, i) == Ordering::Less,
    decreases a, a.len() - i,
{
    if i < a.len() && i < b.len() && i < c.len() {
        lemma_name_order(a[i], b[i]);
        lemma_name_order(b[i], c[i]);
        lemma_name_order(a[i], c[i]);
        lemma_name_order_transitive(a[i], b[i], c[i]);
        if a[i] == b[i] && b[i] == c[i] {
            lemma_args_order_transitive(a, b, c, i + 1);
        }
    }
}

/// The order of names is transitive, and strict wherever one of the two
/// steps is: with `lemma_name_order`, names are totally ordered.
pub proof fn lemma_name_order_transitive(a: NameView, b: NameView, c: NameView)
    requires
        name_order(a, b) != Ordering::Greater,
        name_order(b, c) != Ordering::Greater,
    ensures
        name_order(a, c) != Ordering::Greater,
        (name_order(a, b) == Ordering::Less || name_order(b, c) == Ordering::Less) ==> name_order(
            a,
            c,
        ) == Ordering::Less,
    decreases a, 1int,
{
    lemma_chars_order(a.base, b.base);
    lemma_chars_order(b.base, c.base);
    lemma_chars_order(a.base, c.base);
    lemma_chars_order_transitive(a.base, b.base, c.base);
    if a.base == b.base && b.base == c.base {
        lemma_args_order_transitive(a.args, b.args, c.args, 0);
    }
}

fn compare_chars(a: &str, b: &str) -> (r: Ordering)
    ensures
        r == chars_order(a@, b@),
{
    let la = a.unicode_len();
    let lb = b.unicode_len();
    let mut i: usize = 0;
    assert(a@.skip(0) =~= a@);
    assert(b@.skip(0) =~= b@);
    while i < la && i < lb
        invariant
            i <= la,
            i <= lb,
            la == a@.len(),
            lb == b@.len(),
            chars_order(a@, b@) == chars_order(a@.skip(i as int), b@.skip(i as int)),
        decreases la - i,
    {
        let ca = a.get_char(i);
        let cb = b.get_char(i);
        assert(a@.skip(i as int)[0] == ca && b@.skip(i as int)[0] == cb);
        if ca < cb {
            return Ordering::Less;
        }
        if ca > cb {
            return Ordering::Greater;
        }
        assert(a@.skip(i as int).skip(1) =~= a@.skip(i + 1));
        assert(b@.skip(i as int).skip(1) =~= b@.skip(i + 1));
        i = i + 1;
    }
    if i == la {
        if i == lb {
            Ordering::Equal
        } else {
            Ordering::Less
        }
    } else {
        Ordering::Greater
    }
}

impl SchemaName {
    /// The order of two names: by base name, character by character, then
    /// by their arguments in turn, a proper prefix first.
    pub fn compare(&self, other: &SchemaName) -> (r: Ordering)
        ensures
            r == name_order(self@, other@),
        decreases self,
    {
        match compare_chars(self.base.as_str(), other.base.as_str()) {
            Ordering::Less => {
                return Ordering::Less;
            },
            Ordering::Greater => {
                return Ordering::Greater;
            },
            Ordering::Equal => {},
        }
        let mut i: usize = 0;
        while i < self.args.len() && i < other.args.len()
            invariant
                i <= self.args.len(),
                i <= other.args.len(),
                name_order(self@, other@) == args_order(self@.args, other@.args, i as int),
            decreases self.args.len() - i,
        {
            match self.args[i].compare(&other.args[i]) {
                Ordering::Less => {
                    return Ordering::Less;
                },
                Ordering::Greater => {
                    return Ordering::Greater;
                },
                Ordering::Equal => {},
            }
            i = i + 1;
        }
        if i == self.args.len() {
            if i == other.args.len() {
                Ordering::Equal
            } else {
                Ordering::Less
            }
        } else {
            Ordering::Greater
        }
    }
}

impl PartialOrd for SchemaName {
    fn partial_cmp(&self, other: &SchemaName) -> (r: Option<Ordering>) {
        Some(self.compare(other))
    }
}

impl vstd::std_specs::cmp::PartialOrdSpecImpl for SchemaName {
    open spec fn obeys_partial_cmp_spec() -> bool {
        true
    }

    open spec fn partial_cmp_spec(&self, other: &SchemaName) -> Option<Ordering> {
        Some(name_order(self@, other@))
    }
}

} // verus!
