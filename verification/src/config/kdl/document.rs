//! A KDL document as the configuration reads it: nodes with a name, entries
//! and children, and the place of each in the source text.

use crate::text::str_eq;
use vstd::prelude::*;

verus! {

/// A range of the source text.
#[derive(Debug, Clone, Copy, PartialEq, Eq, Structural, Default)]
pub struct SourceSpan {
    pub offset: usize,
    pub len: usize,
}

/// The value of an entry.
#[derive(Debug, Clone, PartialEq, Eq)]
pub enum Value {
    /// A string, raw or not.
    String(String),
    /// An integer, in any base.
    Integer(i64),
    /// A number with a fraction. No setting takes one, so its value is not kept.
    Float,
    Bool(bool),
    Null,
}

impl Value {
    /// The text of a string value.
    pub open spec fn spec_string(&self) -> Option<Seq<char>> {
        match self {
            Value::String(s) => Some(s@),
            _ => None,
        }
    }

    /// The number of an integer value.
    pub open spec fn spec_i64(&self) -> Option<i64> {
        match self {
            Value::Integer(i) => Some(*i),
            _ => None,
        }
    }

    /// The number of a non-negative integer value that fits a `usize`.
    pub open spec fn spec_usize(&self) -> Option<usize> {
        match self {
            Value::Integer(i) => if 0 <= *i && *i <= usize::MAX {
                Some(*i as usize)
            } else {
                None
            },
            _ => None,
        }
    }

    /// The truth value of a boolean value.
    pub open spec fn spec_bool(&self) -> Option<bool> {
        match self {
            Value::Bool(b) => Some(*b),
            _ => None,
        }
    }

    /// The text of a string value.
    pub fn as_string(&self) -> (r: Option<&str>)
        ensures
            match r {
                Some(s) => self.spec_string() == Some(s@),
                None => self.spec_string().is_none(),
            },
    {
        match self {
            Value::String(s) => Some(s.as_str()),
            _ => None,
        }
    }

    /// The number of an integer value.
    pub fn as_i64(&self) -> (r: Option<i64>)
        ensures
            r == self.spec_i64(),
    {
        match self {
            Value::Integer(i) => Some(*i),
            _ => None,
        }
    }

    /// The number of a non-negative integer value that fits a `usize`.
    pub fn as_usize(&self) -> (r: Option<usize>)
        ensures
            r == self.spec_usize(),
    {
        match self {
            Value::Integer(i) => {
                if *i >= 0 && (*i as u64) <= usize::MAX as u64 {
                    Some(*i as usize)
                } else {
                    None
                }
            },
            _ => None,
        }
    }

    /// The truth value of a boolean value.
    pub fn as_bool(&self) -> (r: Option<bool>)
        ensures
            r == self.spec_bool(),
    {
        match self {
            Value::Bool(b) => Some(*b),
            _ => None,
        }
    }
}

/// An argument or a property of a node.
#[derive(Debug, Clone, PartialEq, Eq)]
pub struct Entry {
    /// The name of a property; an argument has none.
    pub name: Option<String>,
    pub value: Value,
    pub span: SourceSpan,
}

impl Entry {
    /// The name of a property.
    pub open spec fn spec_name(&self) -> Option<Seq<char>> {
        match self.name {
            Some(n) => Some(n@),
            None => None,
        }
    }

    /// The name of a property.
    pub fn name(&self) -> (r: Option<&str>)
        ensures
            match r {
                Some(n) => self.spec_name() == Some(n@),
                None => self.spec_name().is_none(),
            },
    {
        match &self.name {
            Some(n) => Some(n.as_str()),
            None => None,
        }
    }
}

/// A node: a name, entries, and possibly a block of children.
#[derive(Debug)]
pub struct Node {
    pub name: String,
    pub entries: Vec<Entry>,
    pub children: Option<Document>,
    pub span: SourceSpan,
}

/// A document: the nodes of one block, in order.
#[derive(Debug)]
pub struct Document {
    pub nodes: Vec<Node>,
    pub span: SourceSpan,
}

/// The position of the first of `nodes` named `name`.
pub open spec fn position_named(nodes: Seq<Node>, name: Seq<char>) -> Option<int>
    decreases nodes.len(),
{
    if nodes.len() == 0 {
        None
    } else {
        match position_named(nodes.drop_last(), name) {
            Some(i) => Some(i),
            None => if nodes.last().name@ == name {
                Some(nodes.len() - 1)
            } else {
                None
            },
        }
    }
}

/// The position of the last of `entries` whose property name is `name`.
pub open spec fn position_of_property(entries: Seq<Entry>, name: Seq<char>) -> Option<int>
    decreases entries.len(),
{
    if entries.len() == 0 {
        None
    } else if entries.last().spec_name() == Some(name) {
        Some(entries.len() - 1)
    } else {
        position_of_property(entries.drop_last(), name)
    }
}

/// What `position_named` finds is the first node of that name.
pub proof fn lemma_position_named(nodes: Seq<Node>, name: Seq<char>)
    ensures
        match position_named(nodes, name) {
            Some(i) => 0 <= i < nodes.len() && nodes[i].name@ == name && forall|j: int|
                0 <= j < i ==> (#[trigger] nodes[j]).name@ != name,
            None => forall|j: int| 0 <= j < nodes.len() ==> (#[trigger] nodes[j]).name@ != name,
        },
    decreases nodes.len(),
{
    if nodes.len() > 0 {
        lemma_position_named(nodes.drop_last(), name);
        assert forall|j: int| 0 <= j < nodes.len() - 1 implies nodes[j] == nodes.drop_last()[j] by {}
    }
}

/// What `position_of_property` finds is the last property of that name.
pub proof fn lemma_position_of_property(entries: Seq<Entry>, name: Seq<char>)
    ensures
        match position_of_property(entries, name) {
            Some(i) => 0 <= i < entries.len() && entries[i].spec_name() == Some(name) && forall|
                j: int,
            |
                i < j < entries.len() ==> (#[trigger] entries[j]).spec_name() != Some(name),
            None => forall|j: int|
                0 <= j < entries.len() ==> (#[trigger] entries[j]).spec_name() != Some(name),
        },
    decreases entries.len(),
{
    if entries.len() > 0 {
        lemma_position_of_property(entries.drop_last(), name);
        assert forall|j: int| 0 <= j < entries.len() - 1 implies entries[j]
            == entries.drop_last()[j] by {}
    }
}

impl Document {
    /// The first node named `name`.
    #[verifier::loop_isolation(false)]
    pub fn get(&self, name: &str) -> (r: Option<&Node>)
        ensures
            match r {
                Some(node) => position_named(self.nodes@, name@) matches Some(i) && 0 <= i
                    < self.nodes@.len() && *node == self.nodes@[i],
                None => position_named(self.nodes@, name@).is_none(),
            },
    {
        proof {
            lemma_position_named(self.nodes@, name@);
        }
        let mut i: usize = 0;
        while i < self.nodes.len()
            invariant
                i <= self.nodes@.len(),
                forall|j: int| 0 <= j < i ==> (#[trigger] self.nodes@[j]).name@ != name@,
            decreases self.nodes@.len() - i,
        {
            if str_eq(self.nodes[i].name.as_str(), name) {
                return Some(&self.nodes[i]);
            }
            i += 1;
        }
        None
    }
}

/// The last entry of `entries` whose property name is `name`.
#[verifier::loop_isolation(false)]
pub fn property<'a>(entries: &'a Vec<Entry>, name: &str) -> (r: Option<&'a Entry>)
    ensures
        match r {
            Some(entry) => position_of_property(entries@, name@) matches Some(i) && 0 <= i
                < entries@.len() && *entry == entries@[i],
            None => position_of_property(entries@, name@).is_none(),
        },
{
    proof {
        lemma_position_of_property(entries@, name@);
    }
    let mut i: usize = entries.len();
    while i > 0
        invariant
            i <= entries@.len(),
            forall|j: int| i <= j < entries@.len() ==> (#[trigger] entries@[j]).spec_name() != Some(
                name@,
            ),
        decreases i,
    {
        i -= 1;
        if let Some(n) = entries[i].name() {
            if str_eq(n, name) {
                return Some(&entries[i]);
            }
        }
    }
    None
}

} // verus!
