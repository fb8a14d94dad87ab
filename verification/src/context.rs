//! The context: the tree of values that placeholders are resolved against,
//! and the walk that resolves a key path in it.

use vstd::prelude::*;
use crate::primitives::same_text;

verus! {

/// A value of the context tree.
#[derive(Debug, PartialEq, Eq)]
pub enum Context {
    /// No value.
    Null,
    /// A value that is written out as the text it holds.
    Scalar(String),
    /// Named children. Where a name occurs twice, the earlier entry counts.
    Object(Vec<(String, Context)>),
}

/// The mathematical form of a [`Context`]: the same tree, with each string
/// as the sequence of its characters.
pub enum Node {
    Null,
    Scalar(Seq<char>),
    Object(Seq<(Seq<char>, Node)>),
}

impl Context {
    /// This value with the text of every string in place of the string.
    pub open spec fn node(self) -> Node
        decreases self,
    {
        match self {
            Context::Null => Node::Null,
            Context::Scalar(text) => Node::Scalar(text@),
            Context::Object(entries) => Node::Object(
                Seq::new(
                    entries@.len(),
                    |i: int|
                        if 0 <= i < entries@.len() {
                            (entries@[i].0@, entries@[i].1.node())
                        } else {
                            (Seq::empty(), Node::Null)
                        },
                ),
            ),
        }
    }
}

impl View for Context {
    type V = Node;

    open spec fn view(&self) -> Node {
        self.node()
    }
}

/// The value of the first of `entries` that is named `key`.
pub open spec fn lookup(entries: Seq<(Seq<char>, Node)>, key: Seq<char>) -> Option<Node>
    decreases entries.len(),
{
    if entries.len() == 0 {
        None
    } else if entries.first().0 == key {
        Some(entries.first().1)
    } else {
        lookup(entries.drop_first(), key)
    }
}

impl Node {
    /// The child of this node that is named `key`. Only an object has
    /// children.
    pub open spec fn child(self, key: Seq<char>) -> Option<Node> {
        match self {
            Node::Object(entries) => lookup(entries, key),
            _ => None,
        }
    }

    /// The node reached from this one by looking up `keys` one after the
    /// other, or `None` as soon as one lookup finds nothing. No keys reach
    /// this node itself.
    pub open spec fn walk(self, keys: Seq<Seq<char>>) -> Option<Node>
        decreases keys.len(),
    {
        if keys.len() == 0 {
            Some(self)
        } else {
            match self.child(keys.first()) {
                Some(next) => next.walk(keys.drop_first()),
                None => None,
            }
        }
    }

    /// The walk along `keys` finds nothing at `position`: the keys in front
    /// of that position lead to a node without a child named
    /// `keys[position]`, or lead nowhere themselves.
    pub open spec fn misses_at(self, keys: Seq<Seq<char>>, position: int) -> bool {
        &&& 0 <= position < keys.len()
        &&& match self.walk(keys.take(position)) {
            Some(reached) => reached.child(keys[position]) is None,
            None => true,
        }
    }
}

/// The text that a resolved value is written as: a scalar's own text, and
/// nothing for an absent value, a null or an object.
pub open spec fn text_of(value: Option<Node>) -> Seq<char> {
    match value {
        Some(Node::Scalar(text)) => text,
        _ => Seq::empty(),
    }
}

/// A walk is the walk along any prefix of its keys, continued along the rest
/// of them.
pub proof fn lemma_walk_split(root: Node, keys: Seq<Seq<char>>, n: int)
    requires
        0 <= n <= keys.len(),
    ensures
        root.walk(keys) == match root.walk(keys.take(n)) {
            Some(reached) => reached.walk(keys.skip(n)),
            None => None,
        },
    decreases n,
{
    if n == 0 {
        assert(keys.skip(0) =~= keys);
    } else {
        assert(keys.take(n).drop_first() =~= keys.drop_first().take(n - 1));
        assert(keys.skip(n) =~= keys.drop_first().skip(n - 1));
        if let Some(next) = root.child(keys.first()) {
            lemma_walk_split(next, keys.drop_first(), n - 1);
        }
    }
}

/// A miss at any position is a miss of the whole walk: the keys behind it are
/// not looked up, and nothing is reached.
pub proof fn lemma_miss_ends_walk(root: Node, keys: Seq<Seq<char>>, position: int)
    requires
        root.misses_at(keys, position),
    ensures
        root.walk(keys) is None,
{
    lemma_walk_split(root, keys, position);
    assert(keys.skip(position).first() == keys[position]);
}

impl Context {
    /// Looks up the child named `key`.
    pub fn get(&self, key: &str) -> (r: Option<&Context>)
        ensures
            match r {
                Some(found) => self@.child(key@) == Some(found@),
                None => self@.child(key@) is None,
            },
    {
        match self {
            Context::Object(entries) => {
                let ghost all = self@->Object_0;
                let mut i: usize = 0;
                assert(all.skip(0) =~= all);
                while i < entries.len()
                    invariant
                        i <= entries.len(),
                        self@ == Node::Object(all),
                        all.len() == entries.len(),
                        forall|j: int|
                            0 <= j < entries.len() ==> all[j] == (
                                #[trigger] entries@[j].0@,
                                entries@[j].1@,
                            ),
                        lookup(all, key@) == lookup(all.skip(i as int), key@),
                    decreases entries.len() - i,
                {
                    let entry = &entries[i];
                    if same_text(entry.0.as_str(), key) {
                        return Some(&entry.1);
                    }
                    assert(all.skip(i as int).drop_first() =~= all.skip(i + 1));
                    i += 1;
                }
                None
            },
            _ => None,
        }
    }
}

/// Walks `keys` from `context`, one lookup per key, and stops at the first
/// lookup that finds nothing.
pub fn resolve<'c>(context: &'c Context, keys: &Vec<&str>) -> (r: Option<&'c Context>)
    ensures
        match r {
            Some(found) => context@.walk(keys.deep_view()) == Some(found@),
            None => context@.walk(keys.deep_view()) is None,
        },
{
    let ghost path = keys.deep_view();
    let mut current = context;
    let mut i: usize = 0;
    assert(path.skip(0) =~= path);
    while i < keys.len()
        invariant
            i <= keys.len(),
            path == keys.deep_view(),
            context@.walk(path) == current@.walk(path.skip(i as int)),
        decreases keys.len() - i,
    {
        assert(path.skip(i as int).drop_first() =~= path.skip(i + 1));
        match current.get(keys[i]) {
            Some(next) => {
                current = next;
            },
            None => {
                return None;
            },
        }
        i += 1;
    }
    Some(current)
}

/// Writes a resolved value as text.
pub fn coerce<'c>(value: Option<&'c Context>) -> (r: &'c str)
    ensures
        r@ == text_of(
            match value {
                Some(found) => Some(found@),
                None => None,
            },
        ),
{
    match value {
        Some(Context::Scalar(text)) => text.as_str(),
        _ => {
            proof {
                reveal_strlit("");
            }
            ""
        },
    }
}

} // verus!
