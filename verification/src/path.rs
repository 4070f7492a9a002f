//! Unix file paths, compared by their components.
use vstd::prelude::*;
use crate::text::{
    chars_less, chars_of, contains_char, join_texts, split_on, string_of, text_eq,
};
use crate::text::{
    join, joining_undoes_splitting, lemma_split_nonempty, lemma_text_less_irreflexive,
    lemma_text_less_total, lemma_text_less_transitive, split, splitting_goes_over_the_separator,
    text_less, texts,
};

verus! {

/// The pieces that name something: neither empty nor a single dot.
pub open spec fn named(pieces: Seq<Seq<char>>) -> Seq<Seq<char>>
    decreases pieces.len(),
{
    if pieces.len() == 0 {
        Seq::empty()
    } else {
        let rest = named(pieces.drop_last());
        if pieces.last().len() == 0 || pieces.last() == seq!['.'] {
            rest
        } else {
            rest.push(pieces.last())
        }
    }
}

/// A path that begins at the root.
pub open spec fn absolute(s: Seq<char>) -> bool {
    s.len() > 0 && s[0] == '/'
}

/// What stands before the named pieces: the root, a leading dot, or nothing.
pub open spec fn lead(s: Seq<char>) -> Seq<Seq<char>> {
    if absolute(s) {
        seq![seq!['/']]
    } else if split(s, '/')[0] == seq!['.'] {
        seq![seq!['.']]
    } else {
        Seq::empty()
    }
}

/// The components of a path. Repeated and trailing separators, and dots
/// other than a leading one, do not count.
pub open spec fn components(s: Seq<char>) -> Seq<Seq<char>> {
    lead(s) + named(split(s, '/'))
}

/// The component that leads to the parent directory.
pub open spec fn parent_dir() -> Seq<char> {
    seq!['.', '.']
}

/// An absolute path without a component that leads to a parent directory.
pub open spec fn safe_absolute(s: Seq<char>) -> bool {
    absolute(s) && !components(s).contains(parent_dir())
}

/// `base` or a path below it.
pub open spec fn within(s: Seq<char>, base: Seq<char>) -> bool {
    components(base).is_prefix_of(components(s))
}

/// The path above this one: the shortest prefix that lacks only the last
/// component.
pub open spec fn is_parent(s: Seq<char>, n: int) -> bool {
    &&& 0 <= n <= s.len()
    &&& components(s.take(n)) == components(s).drop_last()
    &&& forall|m: int| 0 <= m < n ==> components(#[trigger] s.take(m)) != components(s).drop_last()
}

/// The text of the path above this one, where there is one.
pub open spec fn parent_of(s: Seq<char>) -> Option<Seq<char>> {
    if components(s).len() > 0 && components(s).last() != seq!['/'] && exists|n: int|
        is_parent(s, n) {
        Some(s.take(choose|n: int| is_parent(s, n)))
    } else {
        None
    }
}

/// A component that names a file or a directory.
pub open spec fn is_name(component: Seq<char>) -> bool {
    component != seq!['/'] && component != seq!['.'] && component != parent_dir()
}

/// The last component, where it names something.
pub open spec fn file_name(s: Seq<char>) -> Option<Seq<char>> {
    let parts = components(s);
    if parts.len() > 0 && is_name(parts.last()) {
        Some(parts.last())
    } else {
        None
    }
}

/// Order of component lists: that of the first components that differ.
pub open spec fn components_less(a: Seq<Seq<char>>, b: Seq<Seq<char>>) -> bool
    decreases a.len(),
{
    if b.len() == 0 {
        false
    } else if a.len() == 0 {
        true
    } else if a[0] != b[0] {
        text_less(a[0], b[0])
    } else {
        components_less(a.drop_first(), b.drop_first())
    }
}

/// A file path.
#[derive(Debug)]
pub struct FilePath {
    pub text: String,
}

impl View for FilePath {
    type V = Seq<char>;

    open spec fn view(&self) -> Seq<char> {
        self.text@
    }
}

impl Clone for FilePath {
    fn clone(&self) -> (r: FilePath)
        ensures
            r == *self,
    {
        FilePath { text: self.text.clone() }
    }
}

/// Whether two lists hold the same strings in the same order.
pub fn same_texts(a: &[String], b: &[String]) -> (r: bool)
    ensures
        r == (texts(a@) == texts(b@)),
{
    if a.len() != b.len() {
        assert(texts(a@).len() != texts(b@).len());
        return false;
    }
    let mut i: usize = 0;
    while i < a.len()
        invariant
            i <= a.len(),
            a.len() == b.len(),
            forall|j: int| 0 <= j < i ==> (#[trigger] a@[j])@ == b@[j]@,
        decreases a.len() - i,
    {
        if !text_eq(a[i].as_str(), b[i].as_str()) {
            assert(texts(a@)[i as int] != texts(b@)[i as int]);
            return false;
        }
        i = i + 1;
    }
    assert(texts(a@) =~= texts(b@));
    true
}

/// The components of a path given as text.
pub fn components_of(s: &str) -> (r: Vec<String>)
    ensures
        texts(r@) == components(s@),
{
    let pieces = split_on(s, '/');
    let chars = chars_of(s);
    let mut r: Vec<String> = Vec::new();
    proof {
        reveal_strlit("/");
        reveal_strlit(".");
        assert("/"@ =~= seq!['/']);
        assert("."@ =~= seq!['.']);
        lemma_split_nonempty(s@, '/');
    }
    if chars.len() > 0 && chars[0] == '/' {
        r.push("/".to_owned());
    } else {
        assert(texts(pieces@)[0] == pieces@[0]@);
        if text_eq(pieces[0].as_str(), ".") {
            r.push(".".to_owned());
        }
    }
    assert(texts(r@) =~= lead(s@));
    let mut i: usize = 0;
    assert(texts(pieces@).take(0) =~= Seq::<Seq<char>>::empty());
    assert(texts(r@) =~= lead(s@) + named(texts(pieces@).take(0)));
    while i < pieces.len()
        invariant
            i <= pieces.len(),
            "."@ == seq!['.'],
            texts(r@) == lead(s@) + named(texts(pieces@).take(i as int)),
        decreases pieces.len() - i,
    {
        let ghost next = texts(pieces@).take(i + 1);
        assert(next.drop_last() =~= texts(pieces@).take(i as int));
        assert(next.last() == pieces@[i as int]@);
        let ghost before = texts(r@);
        if !pieces[i].as_str().is_empty() && !text_eq(pieces[i].as_str(), ".") {
            r.push(pieces[i].clone());
            assert(texts(r@) =~= before.push(pieces@[i as int]@));
            assert(texts(r@) =~= lead(s@) + named(next));
        }
        i = i + 1;
    }
    assert(texts(pieces@).take(i as int) =~= texts(pieces@));
    r
}

/// Whether the first component list comes before the second one.
fn components_lt(a: &[String], b: &[String]) -> (r: bool)
    ensures
        r == components_less(texts(a@), texts(b@)),
{
    let mut i: usize = 0;
    assert(texts(a@).skip(0) =~= texts(a@));
    assert(texts(b@).skip(0) =~= texts(b@));
    while i < a.len() && i < b.len()
        invariant
            i <= a.len(),
            i <= b.len(),
            components_less(texts(a@), texts(b@)) == components_less(
                texts(a@).skip(i as int),
                texts(b@).skip(i as int),
            ),
        decreases a.len() - i,
    {
        assert(texts(a@).skip(i as int)[0] == a@[i as int]@);
        assert(texts(b@).skip(i as int)[0] == b@[i as int]@);
        if !text_eq(a[i].as_str(), b[i].as_str()) {
            let x = chars_of(a[i].as_str());
            let y = chars_of(b[i].as_str());
            return chars_less(&x, &y);
        }
        assert(texts(a@).skip(i as int).drop_first() =~= texts(a@).skip(i + 1));
        assert(texts(b@).skip(i as int).drop_first() =~= texts(b@).skip(i + 1));
        i = i + 1;
    }
    i < b.len()
}

impl FilePath {
    /// The path with the given text.
    pub fn new(text: &str) -> (r: FilePath)
        ensures
            r@ == text@,
    {
        FilePath { text: text.to_owned() }
    }

    /// The text of the path.
    pub fn as_str(&self) -> (r: &str)
        ensures
            r@ == self@,
    {
        self.text.as_str()
    }

    /// Whether the path begins at the root.
    pub fn is_absolute(&self) -> (r: bool)
        ensures
            r == absolute(self@),
    {
        let chars = chars_of(self.text.as_str());
        chars.len() > 0 && chars[0] == '/'
    }

    /// Whether the path is absolute and has no component that leads upwards.
    pub fn is_safe_absolute(&self) -> (r: bool)
        ensures
            r == safe_absolute(self@),
    {
        if !self.is_absolute() {
            return false;
        }
        let parts = components_of(self.text.as_str());
        proof {
            reveal_strlit("..");
            assert(".."@ =~= parent_dir());
        }
        let mut i: usize = 0;
        while i < parts.len()
            invariant
                i <= parts.len(),
                texts(parts@) == components(self@),
                ".."@ == parent_dir(),
                forall|j: int| 0 <= j < i ==> components(self@)[j] != parent_dir(),
            decreases parts.len() - i,
        {
            assert(texts(parts@)[i as int] == parts@[i as int]@);
            if text_eq(parts[i].as_str(), "..") {
                assert(components(self@)[i as int] == parent_dir());
                return false;
            }
            i = i + 1;
        }
        true
    }

    /// Whether both paths have the same components.
    pub fn same_as(&self, other: &FilePath) -> (r: bool)
        ensures
            r == (components(self@) == components(other@)),
    {
        let a = components_of(self.text.as_str());
        let b = components_of(other.text.as_str());
        same_texts(&a, &b)
    }

    /// Whether this path is `base` or lies below it.
    pub fn starts_with(&self, base: &FilePath) -> (r: bool)
        ensures
            r == within(self@, base@),
    {
        let a = components_of(self.text.as_str());
        let b = components_of(base.text.as_str());
        assert(texts(a@).len() == a@.len());
        assert(texts(b@).len() == b@.len());
        if b.len() > a.len() {
            return false;
        }
        let mut i: usize = 0;
        while i < b.len()
            invariant
                i <= b.len() <= a.len(),
                texts(a@) == components(self@),
                texts(b@) == components(base@),
                forall|j: int| 0 <= j < i ==> texts(a@)[j] == texts(b@)[j],
            decreases b.len() - i,
        {
            assert(texts(a@)[i as int] == a@[i as int]@);
            assert(texts(b@)[i as int] == b@[i as int]@);
            if !text_eq(a[i].as_str(), b[i].as_str()) {
                assert(components(self@).subrange(0, b.len() as int)[i as int]
                    != components(base@)[i as int]);
                return false;
            }
            i = i + 1;
        }
        assert(components(base@) =~= components(self@).subrange(0, b.len() as int));
        true
    }

    /// Whether the components of this path come before those of the other.
    pub fn comes_before(&self, other: &FilePath) -> (r: bool)
        ensures
            r == components_less(components(self@), components(other@)),
    {
        let a = components_of(self.text.as_str());
        let b = components_of(other.text.as_str());
        components_lt(&a, &b)
    }

    /// The name of the file that the path leads to.
    pub fn file_name(&self) -> (r: Option<String>)
        ensures
            match r {
                Some(name) => file_name(self@) == Some(name@),
                None => file_name(self@) is None,
            },
    {
        let parts = components_of(self.text.as_str());
        proof {
            reveal_strlit("/");
            reveal_strlit(".");
            reveal_strlit("..");
            assert("/"@ =~= seq!['/']);
            assert("."@ =~= seq!['.']);
            assert(".."@ =~= parent_dir());
        }
        let n: usize = parts.len();
        assert(components(self@).len() == n);
        if n == 0 {
            return None;
        }
        let last = &parts[n - 1];
        assert(components(self@).last() == last@) by {
            assert(texts(parts@)[n - 1] == parts@[n - 1]@);
        }
        if text_eq(last.as_str(), "/") || text_eq(last.as_str(), ".") || text_eq(
            last.as_str(),
            "..",
        ) {
            None
        } else {
            Some(last.clone())
        }
    }

    /// The path above this one.
    pub fn parent(&self) -> (r: Option<FilePath>)
        ensures
            match r {
                Some(path) => parent_of(self@) == Some(path@),
                None => parent_of(self@) is None,
            },
    {
        let parts = components_of(self.text.as_str());
        proof {
            reveal_strlit("/");
            assert("/"@ =~= seq!['/']);
        }
        let n: usize = parts.len();
        assert(components(self@).len() == n);
        if n == 0 {
            return None;
        }
        assert(components(self@).last() == parts@[n - 1]@) by {
            assert(texts(parts@)[n - 1] == parts@[n - 1]@);
        }
        if text_eq(parts[n - 1].as_str(), "/") {
            return None;
        }
        let mut above = parts;
        above.pop();
        let ghost wanted = components(self@).drop_last();
        assert(texts(above@) =~= wanted);
        let chars = chars_of(self.text.as_str());
        let mut prefix = String::new();
        let mut i: usize = 0;
        assert(self@.take(0) =~= Seq::<char>::empty());
        loop
            invariant
                i <= chars.len(),
                chars@ == self@,
                prefix@ == self@.take(i as int),
                texts(above@) == wanted,
                wanted == components(self@).drop_last(),
                components(self@).len() > 0,
                components(self@).last() != seq!['/'],
                forall|m: int| 0 <= m < i ==> components(#[trigger] self@.take(m)) != wanted,
            decreases chars.len() - i,
        {
            let parts = components_of(prefix.as_str());
            if same_texts(&parts, &above) {
                proof {
                    assert(is_parent(self@, i as int));
                    let n = choose|n: int| is_parent(self@, n);
                    if n < i {
                        assert(components(self@.take(n)) != wanted);
                    } else if i < n {
                        assert(components(self@.take(i as int)) == wanted);
                    }
                }
                return Some(FilePath { text: prefix });
            }
            if i == chars.len() {
                assert forall|n: int| !is_parent(self@, n) by {
                    if 0 <= n <= self@.len() {
                        assert(components(self@.take(n)) != wanted);
                    }
                }
                return None;
            }
            prefix.push(chars[i]);
            assert(self@.take(i + 1) =~= self@.take(i as int).push(self@[i as int]));
            i = i + 1;
        }
    }

    /// The path of an entry below this one; an absolute entry stands for itself.
    pub fn join(&self, entry: &str) -> (r: FilePath)
        ensures
            r@ == joined(self@, entry@),
    {
        let e = chars_of(entry);
        if e.len() > 0 && e[0] == '/' {
            return FilePath::new(entry);
        }
        let base = chars_of(self.text.as_str());
        let mut text = self.text.clone();
        if base.len() > 0 && base[base.len() - 1] != '/' {
            text.push('/');
        }
        text.append(entry);
        FilePath { text }
    }
}

/// The text of an entry below a directory; an absolute entry stands for itself.
pub open spec fn joined(base: Seq<char>, entry: Seq<char>) -> Seq<char> {
    if absolute(entry) {
        entry
    } else if base.len() > 0 && base.last() != '/' {
        base.push('/') + entry
    } else {
        base + entry
    }
}

impl PartialEq for FilePath {
    fn eq(&self, other: &FilePath) -> (r: bool) {
        self.same_as(other)
    }
}

impl vstd::std_specs::cmp::PartialEqSpecImpl for FilePath {
    open spec fn obeys_eq_spec() -> bool {
        true
    }

    open spec fn eq_spec(&self, other: &FilePath) -> bool {
        components(self@) == components(other@)
    }
}

impl Eq for FilePath {

}

/// The texts of a list of paths.
pub open spec fn path_texts(paths: Seq<FilePath>) -> Seq<Seq<char>> {
    paths.map_values(|p: FilePath| p@)
}

/// The paths as one value of an environment variable, with colons between
/// them; nothing where a path holds a colon itself.
pub fn join_paths(paths: &[FilePath]) -> (r: Option<String>)
    ensures
        match r {
            Some(text) => text@ == join(path_texts(paths@), seq![':']) && forall|i: int|
                0 <= i < paths@.len() ==> !(#[trigger] paths@[i])@.contains(':'),
            None => exists|i: int| 0 <= i < paths@.len() && (#[trigger] paths@[i])@.contains(':'),
        },
{
    let mut parts: Vec<String> = Vec::new();
    let mut i: usize = 0;
    while i < paths.len()
        invariant
            i <= paths.len(),
            parts@.len() == i,
            forall|j: int| 0 <= j < i ==> (#[trigger] parts@[j])@ == paths@[j]@,
            forall|j: int| 0 <= j < i ==> !(#[trigger] paths@[j])@.contains(':'),
        decreases paths.len() - i,
    {
        if contains_char(paths[i].as_str(), ':') {
            assert(paths@[i as int]@.contains(':'));
            return None;
        }
        parts.push(paths[i].text.clone());
        i = i + 1;
    }
    assert(texts(parts@) =~= path_texts(paths@));
    proof {
        reveal_strlit(":");
        assert(":"@ =~= seq![':']);
    }
    Some(join_texts(&parts, ":"))
}

/// Component lists are in the order of the first components that differ; a list comes after each
/// of its own beginnings.
pub proof fn components_are_ordered_by_their_first_difference(
    a: Seq<Seq<char>>,
    b: Seq<Seq<char>>,
    n: int,
)
    requires
        0 <= n <= a.len(),
        n <= b.len(),
        a.take(n) == b.take(n),
        n == a.len() || n == b.len() || a[n] != b[n],
    ensures
        components_less(a, b) <==> n < b.len() && (n == a.len() || text_less(a[n], b[n])),
    decreases n,
{
    if n > 0 {
        assert(a.take(n)[0] == a[0]);
        assert(b.take(n)[0] == b[0]);
        assert(a.drop_first().take(n - 1) =~= a.take(n).drop_first());
        assert(b.drop_first().take(n - 1) =~= b.take(n).drop_first());
        components_are_ordered_by_their_first_difference(a.drop_first(), b.drop_first(), n - 1);
    }
}

/// The order of component lists is strict and total, and it is transitive.
pub proof fn components_are_totally_ordered(
    a: Seq<Seq<char>>,
    b: Seq<Seq<char>>,
    c: Seq<Seq<char>>,
)
    ensures
        !components_less(a, a),
        components_less(a, b) || components_less(b, a) || a == b,
        components_less(a, b) && components_less(b, c) ==> components_less(a, c),
    decreases a.len(),
{
    if a.len() == 0 && b.len() == 0 {
        assert(a =~= b);
    }
    if a.len() > 0 {
        components_are_totally_ordered(a.drop_first(), b.drop_first(), c.drop_first());
        if b.len() > 0 {
            lemma_text_less_total(a[0], b[0]);
            if a[0] == b[0] && a.drop_first() == b.drop_first() {
                assert(a =~= seq![a[0]] + a.drop_first());
                assert(b =~= seq![b[0]] + b.drop_first());
            }
            if c.len() > 0 && text_less(a[0], b[0]) && text_less(b[0], c[0]) {
                lemma_text_less_transitive(a[0], b[0], c[0]);
                lemma_text_less_irreflexive(a[0]);
            }
        }
    }
}

/// The named pieces of two lists are those of the first and those of the second one.
pub proof fn named_pieces_add_up(a: Seq<Seq<char>>, b: Seq<Seq<char>>)
    ensures
        named(a + b) == named(a) + named(b),
    decreases b.len(),
{
    if b.len() == 0 {
        assert(a + b =~= a);
        assert(named(a) + named(b) =~= named(a));
    } else {
        assert((a + b).drop_last() =~= a + b.drop_last());
        named_pieces_add_up(a, b.drop_last());
        assert(named(a + b) =~= named(a) + named(b));
    }
}

/// An entry below a directory has the components of the directory and then its own.
pub proof fn entries_lie_below_their_directory(base: Seq<char>, entry: Seq<char>)
    requires
        base.len() > 0,
        !absolute(entry),
    ensures
        split(entry, '/')[0] != seq!['.'] ==> components(joined(base, entry)) == components(base)
            + components(entry),
        within(joined(base, entry), base),
        absolute(joined(base, entry)) == absolute(base),
{
    lemma_split_nonempty(entry, '/');
    let front = if base.last() == '/' {
        base.drop_last()
    } else {
        base
    };
    let whole = joined(base, entry);
    assert(whole =~= front.push('/') + entry);
    splitting_goes_over_the_separator(front, entry, '/');
    named_pieces_add_up(split(front, '/'), split(entry, '/'));
    lemma_split_nonempty(front, '/');
    if base.last() == '/' {
        assert(split(base, '/') == split(front, '/').push(Seq::empty()));
        assert(split(base, '/').drop_last() =~= split(front, '/'));
        assert(named(split(base, '/')) == named(split(front, '/')));
        assert(split(base, '/')[0] == split(front, '/')[0]);
    }
    assert(lead(whole) == lead(base)) by {
        assert(whole[0] == base[0]);
        assert(split(whole, '/')[0] == split(front, '/')[0]);
    }
    let own = named(split(entry, '/'));
    assert(components(whole) =~= components(base) + own);
    assert(components(base) =~= components(whole).subrange(0, components(base).len() as int));
    if split(entry, '/')[0] != seq!['.'] {
        assert(components(entry) =~= own);
    }
}

/// An absolute entry stands for itself, whatever directory it is looked up in.
pub proof fn absolute_entries_stand_for_themselves(base: Seq<char>, entry: Seq<char>)
    requires
        absolute(entry),
    ensures
        joined(base, entry) == entry,
{
}

/// A path with a component other than the root has one above it, with the same components but
/// for the last one. It is a beginning of the path's text.
pub proof fn parents_lack_the_last_component(s: Seq<char>)
    ensures
        parent_of(s) is Some <==> components(s).len() > 0 && components(s).last() != seq!['/'],
        match parent_of(s) {
            Some(parent) => {
                &&& components(parent) == components(s).drop_last()
                &&& parent.len() <= s.len()
                &&& parent == s.take(parent.len() as int)
                &&& within(s, parent)
            },
            None => true,
        },
{
    if components(s).len() > 0 && components(s).last() != seq!['/'] {
        let m = lemma_parent_exists(s);
        let least = lemma_first_parent(s, m);
        assert(is_parent(s, least));
        let n = choose|n: int| is_parent(s, n);
        let parent = s.take(n);
        assert(components(parent) =~= components(s).subrange(0, components(parent).len() as int));
    }
}

/// The first place where the text above a path can end.
proof fn lemma_first_parent(s: Seq<char>, n: int) -> (least: int)
    requires
        0 <= n <= s.len(),
        components(s.take(n)) == components(s).drop_last(),
    ensures
        is_parent(s, least),
    decreases n,
{
    if exists|m: int| 0 <= m < n && components(#[trigger] s.take(m)) == components(s).drop_last() {
        let m = choose|m: int|
            0 <= m < n && components(#[trigger] s.take(m)) == components(s).drop_last();
        lemma_first_parent(s, m)
    } else {
        n
    }
}

/// Some beginning of a path lacks only its last component.
proof fn lemma_parent_exists(s: Seq<char>) -> (n: int)
    requires
        components(s).len() > 0,
        components(s).last() != seq!['/'],
    ensures
        0 <= n <= s.len(),
        components(s.take(n)) == components(s).drop_last(),
    decreases s.len(),
{
    let empty = Seq::<char>::empty();
    assert(components(empty) =~= Seq::<Seq<char>>::empty()) by {
        assert(split(empty, '/') =~= seq![empty]);
        assert(split(empty, '/').drop_last() =~= Seq::<Seq<char>>::empty());
        assert(named(Seq::<Seq<char>>::empty()) =~= Seq::<Seq<char>>::empty());
        assert(split(empty, '/')[0].len() == 0);
        assert(named(split(empty, '/')) =~= Seq::<Seq<char>>::empty());
    }
    if s.len() == 0 {
        assert(s =~= empty);
        0
    } else {
        let front = s.drop_last();
        let c = s.last();
        let pieces = split(front, '/');
        let done = pieces.drop_last();
        let piece = pieces.last();
        joining_undoes_splitting(front, '/');
        assert(s.take(0) =~= empty);
        assert(s.take(s.len() - 1) =~= front);
        assert(front.len() == 0 ==> front =~= empty);
        assert(front.len() == 0 ==> pieces =~= seq![empty]);
        if c == '/' {
            assert(split(s, '/').drop_last() =~= pieces);
            assert(named(split(s, '/')) == named(pieces));
            if front.len() == 0 {
                assert(pieces.drop_last() =~= Seq::<Seq<char>>::empty());
                assert(components(s) =~= seq![seq!['/']]);
                assert(false);
            }
            assert(split(s, '/')[0] == pieces[0]);
            assert(lead(s) == lead(front));
            assert(components(s) == components(front));
            let n = lemma_parent_exists(front);
            assert(front.take(n) =~= s.take(n));
            n
        } else {
            let whole = split(s, '/');
            assert(whole =~= done.push(piece.push(c)));
            assert(whole.drop_last() =~= done);
            assert(whole.last() == piece.push(c));
            if done.len() > 0 {
                assert(whole[0] == pieces[0]);
                assert(front.len() > 0);
                assert(lead(s) == lead(front));
            } else {
                assert(pieces =~= seq![piece]);
                assert(join(pieces, seq!['/']) == piece);
                assert(front == piece);
                assert(s =~= piece.push(c));
                assert(!absolute(front)) by {
                    if absolute(front) {
                        assert(pieces[0].contains('/'));
                    }
                }
                assert(!absolute(s));
                assert(named(done) =~= Seq::<Seq<char>>::empty());
            }
            if piece.len() == 0 {
                assert(piece.push(c) =~= seq![c]);
                if c == '.' {
                    assert(named(whole) == named(done));
                    if done.len() == 0 {
                        assert(components(s) =~= seq![seq!['.']]);
                        assert(components(s).drop_last() =~= Seq::<Seq<char>>::empty());
                        0
                    } else {
                        assert(named(pieces) == named(done));
                        assert(components(s) == components(front));
                        let n = lemma_parent_exists(front);
                        assert(front.take(n) =~= s.take(n));
                        n
                    }
                } else {
                    assert(seq![c] != seq!['.']) by {
                        assert(seq![c][0] != seq!['.'][0]);
                    }
                    assert(named(whole) == named(done).push(seq![c]));
                    if done.len() == 0 {
                        assert(components(s) =~= seq![seq![c]]);
                        assert(components(s).drop_last() =~= Seq::<Seq<char>>::empty());
                        0
                    } else {
                        assert(named(pieces) == named(done));
                        assert(components(s).drop_last() =~= components(front));
                        s.len() - 1
                    }
                }
            } else {
                assert(piece.push(c) != seq!['.']) by {
                    assert(piece.push(c).len() > 1);
                }
                assert(named(whole) == named(done).push(piece.push(c)));
                if piece == seq!['.'] {
                    assert(named(pieces) == named(done));
                    if done.len() == 0 {
                        assert(components(s) =~= seq![piece.push(c)]);
                        assert(components(s).drop_last() =~= Seq::<Seq<char>>::empty());
                        0
                    } else {
                        assert(components(s).drop_last() =~= components(front));
                        s.len() - 1
                    }
                } else {
                    assert(named(pieces) == named(done).push(piece));
                    assert(lead(s) == lead(front));
                    assert(components(front).drop_last() =~= components(s).drop_last());
                    assert(components(front).last() == piece);
                    assert(piece != seq!['/']) by {
                        if piece == seq!['/'] {
                            assert(pieces[pieces.len() - 1][0] == '/');
                            assert(pieces[pieces.len() - 1].contains('/'));
                        }
                    }
                    let n = lemma_parent_exists(front);
                    assert(front.take(n) =~= s.take(n));
                    n
                }
            }
        }
    }
}

/// The directory of an entry is the directory it was looked up in, and the entry's name is the
/// path's file name.
pub proof fn entries_are_found_again(base: Seq<char>, name: Seq<char>)
    requires
        base.len() > 0,
        name.len() > 0,
        !name.contains('/'),
        name != seq!['.'],
        name != parent_dir(),
    ensures
        file_name(joined(base, name)) == Some(name),
        parent_of(joined(base, name)) is Some,
        components(parent_of(joined(base, name))->0) == components(base),
{
    assert(!absolute(name)) by {
        if absolute(name) {
            assert(name[0] == '/');
        }
    }
    assert(split(name, '/') == seq![name]) by {
        assert(join(seq![name], seq!['/']) == name);
        crate::text::splitting_undoes_joining(seq![name], '/');
    }
    assert(seq![name].drop_last() =~= Seq::<Seq<char>>::empty());
    assert(named(Seq::<Seq<char>>::empty()) =~= Seq::<Seq<char>>::empty());
    assert(seq![name].last() == name);
    assert(named(seq![name]) =~= seq![name]);
    assert(components(name) =~= seq![name]);
    entries_lie_below_their_directory(base, name);
    let whole = joined(base, name);
    assert(components(whole).last() == name);
    assert(name != seq!['/']) by {
        if name == seq!['/'] {
            assert(name[0] == '/');
        }
    }
    assert(components(whole).drop_last() =~= components(base));
    parents_lack_the_last_component(whole);
}

/// Lying below a directory is transitive, and a path lies below itself.
pub proof fn lying_below_is_transitive(a: Seq<char>, b: Seq<char>, c: Seq<char>)
    ensures
        within(a, a),
        within(a, b) && within(b, c) ==> within(a, c),
{
    assert(components(a) =~= components(a).subrange(0, components(a).len() as int));
    if within(a, b) && within(b, c) {
        let n = components(c).len() as int;
        assert(components(c) =~= components(b).subrange(0, n));
        assert(components(a).subrange(0, components(b).len() as int).subrange(0, n)
            =~= components(a).subrange(0, n));
    }
}

/// A path is safe where it begins at the root and no component of it leads upwards; entries below
/// it stay safe where theirs do not lead upwards either.
pub proof fn safe_paths_never_lead_upwards(base: Seq<char>, entry: Seq<char>)
    ensures
        safe_absolute(base) <==> base.len() > 0 && base[0] == '/' && forall|i: int|
            0 <= i < components(base).len() ==> #[trigger] components(base)[i] != seq!['.', '.'],
        safe_absolute(base) && !absolute(entry) && split(entry, '/')[0] != seq!['.'] && !components(
            entry,
        ).contains(seq!['.', '.']) ==> safe_absolute(joined(base, entry)),
{
    if safe_absolute(base) && !absolute(entry) && split(entry, '/')[0] != seq!['.'] && !components(
        entry,
    ).contains(seq!['.', '.']) {
        entries_lie_below_their_directory(base, entry);
        let whole = components(joined(base, entry));
        if whole.contains(parent_dir()) {
            let i = choose|i: int| 0 <= i < whole.len() && whole[i] == parent_dir();
            if i < components(base).len() {
                assert(components(base)[i] == parent_dir());
            } else {
                assert(components(entry)[i - components(base).len()] == parent_dir());
            }
        }
    }
}

} // verus!
