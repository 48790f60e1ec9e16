//! Various ad-hoc KDL document parsers used

use crate::config::kdl::document::{position_named, Document, Entry, Node};
use crate::config::kdl::{Bad, BadKind};
use vstd::prelude::*;

verus! {

/// The child document of the first node of `here` named `name`, or the
/// reason why there is none.
pub open spec fn child_doc(here: Document, name: Seq<char>) -> Result<Document, Bad> {
    match position_named(here.nodes@, name) {
        None => Err(Bad { kind: BadKind::MissingSection, span: here.span }),
        Some(i) => match here.nodes@[i].children {
            None => Err(Bad { kind: BadKind::ExpectedNestedNode, span: here.nodes@[i].span }),
            Some(child) => Ok(child),
        },
    }
}

/// Get the child document with a given name, or return an error
///
/// For example, get the "service" doc within the top level doc
pub fn required_child_doc<'a>(_doc: &Document, here: &'a Document, name: &str) -> (r: Result<
    &'a Document,
    Bad,
>)
    ensures
        match r {
            Ok(child) => child_doc(*here, name@) == Ok::<Document, Bad>(*child),
            Err(e) => child_doc(*here, name@) == Err::<Document, Bad>(e),
        },
{
    match here.get(name) {
        None => Err(Bad { kind: BadKind::MissingSection, span: here.span }),
        Some(node) => match &node.children {
            None => Err(Bad { kind: BadKind::ExpectedNestedNode, span: node.span }),
            Some(child) => Ok(child),
        },
    }
}

/// Like `required_child_doc`, but allowed to be missing
pub fn optional_child_doc<'a>(_doc: &Document, here: &'a Document, name: &str) -> (r: Option<
    &'a Document,
>)
    ensures
        match r {
            Some(child) => child_doc(*here, name@) == Ok::<Document, Bad>(*child),
            None => child_doc(*here, name@).is_err(),
        },
{
    match here.get(name) {
        None => None,
        Some(node) => match &node.children {
            None => None,
            Some(child) => Some(child),
        },
    }
}

/// The position of the first of `nodes` that has no block of children.
pub open spec fn first_without_children(nodes: Seq<Node>) -> Option<int>
    decreases nodes.len(),
{
    if nodes.len() == 0 {
        None
    } else {
        match first_without_children(nodes.drop_last()) {
            Some(i) => Some(i),
            None => if nodes.last().children.is_none() {
                Some(nodes.len() - 1)
            } else {
                None
            },
        }
    }
}

proof fn lemma_first_without_children_prefix(nodes: Seq<Node>, k: int)
    requires
        0 <= k <= nodes.len(),
        first_without_children(nodes.take(k)).is_some(),
    ensures
        first_without_children(nodes) == first_without_children(nodes.take(k)),
    decreases nodes.len(),
{
    if k == nodes.len() {
        assert(nodes.take(k) =~= nodes);
    } else {
        assert(nodes.drop_last().take(k) =~= nodes.take(k));
        lemma_first_without_children_prefix(nodes.drop_last(), k);
    }
}

/// Get 0..N children nodes that are themselves named nodes with children
///
/// For example: All the named services in the `services` block
pub fn wildcard_argless_child_docs<'a>(_doc: &Document, here: &'a Document) -> (r: Result<
    Vec<(&'a str, &'a Document)>,
    Bad,
>)
    ensures
        match r {
            Ok(children) => first_without_children(here.nodes@).is_none() && children@.len()
                == here.nodes@.len() && forall|i: int|
                0 <= i < children@.len() ==> (#[trigger] children@[i]).0@ == here.nodes@[i].name@
                    && here.nodes@[i].children == Some(*children@[i].1),
            Err(e) => first_without_children(here.nodes@) matches Some(i) && 0 <= i
                < here.nodes@.len() && e == (Bad {
                kind: BadKind::ExpectedNestedBlock,
                span: here.nodes@[i].span,
            }),
        },
{
    let mut children: Vec<(&'a str, &'a Document)> = Vec::new();
    let mut i: usize = 0;
    assert(here.nodes@.take(0) =~= Seq::empty());
    while i < here.nodes.len()
        invariant
            i <= here.nodes@.len(),
            children@.len() == i,
            first_without_children(here.nodes@.take(i as int)).is_none(),
            forall|j: int|
                0 <= j < i ==> (#[trigger] children@[j]).0@ == here.nodes@[j].name@
                    && here.nodes@[j].children == Some(*children@[j].1),
        decreases here.nodes@.len() - i,
    {
        let node = &here.nodes[i];
        proof {
            assert(here.nodes@.take(i + 1).drop_last() =~= here.nodes@.take(i as int));
            assert(here.nodes@.take(i + 1).last() == here.nodes@[i as int]);
        }
        match &node.children {
            Some(child) => {
                children.push((node.name.as_str(), child));
            },
            None => {
                proof {
                    lemma_first_without_children_prefix(here.nodes@, i + 1);
                }
                return Err(Bad { kind: BadKind::ExpectedNestedBlock, span: node.span });
            },
        }
        i += 1;
    }
    assert(here.nodes@.take(i as int) =~= here.nodes@);
    Ok(children)
}

/// The nodes of a section, for example the listeners of `listeners`: each
/// with its name and its entries.
pub fn data_nodes<'a>(_doc: &Document, here: &'a Document) -> (r: Result<Vec<&'a Node>, Bad>)
    ensures
        r is Ok,
        r->Ok_0@.len() == here.nodes@.len(),
        forall|i: int| 0 <= i < here.nodes@.len() ==> *(#[trigger] r->Ok_0@[i]) == here.nodes@[i],
{
    let mut out: Vec<&'a Node> = Vec::new();
    let mut i: usize = 0;
    while i < here.nodes.len()
        invariant
            i <= here.nodes@.len(),
            out@.len() == i,
            forall|j: int| 0 <= j < i ==> *(#[trigger] out@[j]) == here.nodes@[j],
        decreases here.nodes@.len() - i,
    {
        out.push(&here.nodes[i]);
        i += 1;
    }
    Ok(out)
}

/// What is wrong with the first of `args` that is no named string, if there
/// is one.
pub open spec fn str_str_error(args: Seq<Entry>) -> Option<Bad>
    decreases args.len(),
{
    if args.len() == 0 {
        None
    } else if str_str_error(args.drop_last()).is_some() {
        str_str_error(args.drop_last())
    } else if args.last().spec_name().is_none() {
        Some(Bad { kind: BadKind::UnnamedArgument, span: args.last().span })
    } else if args.last().value.spec_string().is_none() {
        Some(Bad { kind: BadKind::ArgumentNotString, span: args.last().span })
    } else {
        None
    }
}

/// What is wrong with the first of `args` that has no name, if there is one.
pub open spec fn str_value_error(args: Seq<Entry>) -> Option<Bad>
    decreases args.len(),
{
    if args.len() == 0 {
        None
    } else if str_value_error(args.drop_last()).is_some() {
        str_value_error(args.drop_last())
    } else if args.last().spec_name().is_none() {
        Some(Bad { kind: BadKind::UnnamedArgument, span: args.last().span })
    } else {
        None
    }
}

/// Useful for collecting all arguments as str:str key pairs
pub fn str_str_args<'a>(_doc: &Document, args: &'a Vec<Entry>) -> (r: Result<
    Vec<(&'a str, &'a str)>,
    Bad,
>)
    ensures
        match r {
            Ok(pairs) => str_str_error(args@).is_none() && pairs@.len() == args@.len() && forall|
                i: int,
            |
                0 <= i < args@.len() ==> Some((#[trigger] pairs@[i]).0@) == args@[i].spec_name()
                    && Some(pairs@[i].1@) == args@[i].value.spec_string(),
            Err(e) => str_str_error(args@) == Some(e),
        },
{
    let mut out: Vec<(&'a str, &'a str)> = Vec::new();
    let mut i: usize = 0;
    assert(args@.take(0) =~= Seq::empty());
    while i < args.len()
        invariant
            i <= args@.len(),
            out@.len() == i,
            str_str_error(args@.take(i as int)).is_none(),
            forall|j: int|
                0 <= j < i ==> Some((#[trigger] out@[j]).0@) == args@[j].spec_name() && Some(
                    out@[j].1@,
                ) == args@[j].value.spec_string(),
        decreases args@.len() - i,
    {
        let arg = &args[i];
        proof {
            assert(args@.take(i + 1).drop_last() =~= args@.take(i as int));
            assert(args@.take(i + 1).last() == args@[i as int]);
        }
        let name = match arg.name() {
            Some(n) => n,
            None => {
                proof {
                    lemma_str_str_error_prefix(args@, i + 1);
                }
                return Err(Bad { kind: BadKind::UnnamedArgument, span: arg.span });
            },
        };
        let val = match arg.value.as_string() {
            Some(v) => v,
            None => {
                proof {
                    lemma_str_str_error_prefix(args@, i + 1);
                }
                return Err(Bad { kind: BadKind::ArgumentNotString, span: arg.span });
            },
        };
        out.push((name, val));
        i += 1;
    }
    assert(args@.take(i as int) =~= args@);
    Ok(out)
}

proof fn lemma_str_str_error_prefix(args: Seq<Entry>, k: int)
    requires
        0 <= k <= args.len(),
        str_str_error(args.take(k)).is_some(),
    ensures
        str_str_error(args) == str_str_error(args.take(k)),
    decreases args.len(),
{
    if k == args.len() {
        assert(args.take(k) =~= args);
    } else {
        assert(args.drop_last().take(k) =~= args.take(k));
        lemma_str_str_error_prefix(args.drop_last(), k);
    }
}

proof fn lemma_str_value_error_prefix(args: Seq<Entry>, k: int)
    requires
        0 <= k <= args.len(),
        str_value_error(args.take(k)).is_some(),
    ensures
        str_value_error(args) == str_value_error(args.take(k)),
    decreases args.len(),
{
    if k == args.len() {
        assert(args.take(k) =~= args);
    } else {
        assert(args.drop_last().take(k) =~= args.take(k));
        lemma_str_value_error_prefix(args.drop_last(), k);
    }
}

/// Useful for collecting all arguments as str:Value key pairs
///
/// The entry is returned instead of its value to allow for retaining the
/// span for error messages
pub fn str_value_args<'a>(_doc: &Document, args: &'a Vec<Entry>) -> (r: Result<
    Vec<(&'a str, &'a Entry)>,
    Bad,
>)
    ensures
        match r {
            Ok(pairs) => str_value_error(args@).is_none() && pairs@.len() == args@.len() && forall|
                i: int,
            |
                0 <= i < args@.len() ==> Some((#[trigger] pairs@[i]).0@) == args@[i].spec_name()
                    && *pairs@[i].1 == args@[i],
            Err(e) => str_value_error(args@) == Some(e),
        },
{
    let mut out: Vec<(&'a str, &'a Entry)> = Vec::new();
    let mut i: usize = 0;
    assert(args@.take(0) =~= Seq::empty());
    while i < args.len()
        invariant
            i <= args@.len(),
            out@.len() == i,
            str_value_error(args@.take(i as int)).is_none(),
            forall|j: int|
                0 <= j < i ==> Some((#[trigger] out@[j]).0@) == args@[j].spec_name() && *out@[j].1
                    == args@[j],
        decreases args@.len() - i,
    {
        let arg = &args[i];
        proof {
            assert(args@.take(i + 1).drop_last() =~= args@.take(i as int));
            assert(args@.take(i + 1).last() == args@[i as int]);
        }
        let name = match arg.name() {
            Some(n) => n,
            None => {
                proof {
                    lemma_str_value_error_prefix(args@, i + 1);
                }
                return Err(Bad { kind: BadKind::UnnamedArgument, span: arg.span });
            },
        };
        out.push((name, arg));
        i += 1;
    }
    assert(args@.take(i as int) =~= args@);
    Ok(out)
}

/// If the argument exists, ensure it is a str
///
/// Useful with [`str_value_args()`].
pub fn map_ensure_str<'a>(_doc: &Document, val: Option<&'a Entry>) -> (r: Result<
    Option<&'a str>,
    Bad,
>)
    ensures
        match val {
            None => r == Ok::<Option<&str>, Bad>(None),
            Some(v) => match v.value.spec_string() {
                Some(s) => r is Ok && r->Ok_0 is Some && r->Ok_0->Some_0@ == s,
                None => r == Err::<Option<&str>, Bad>(
                    Bad { kind: BadKind::ExpectedString, span: v.span },
                ),
            },
        },
{
    match val {
        None => Ok(None),
        Some(v) => match v.value.as_string() {
            Some(vas) => Ok(Some(vas)),
            None => Err(Bad { kind: BadKind::ExpectedString, span: v.span }),
        },
    }
}

/// If the argument exists, ensure it is a bool
///
/// Useful with [`str_value_args()`].
pub fn map_ensure_bool(_doc: &Document, val: Option<&Entry>) -> (r: Result<Option<bool>, Bad>)
    ensures
        r == (match val {
            None => Ok(None),
            Some(v) => match v.value.spec_bool() {
                Some(b) => Ok(Some(b)),
                None => Err(Bad { kind: BadKind::ExpectedBool, span: v.span }),
            },
        }),
{
    match val {
        None => Ok(None),
        Some(v) => match v.value.as_bool() {
            Some(vas) => Ok(Some(vas)),
            None => Err(Bad { kind: BadKind::ExpectedBool, span: v.span }),
        },
    }
}

/// The one string argument of a node such as `discovery "Static"`.
pub open spec fn one_str_arg(args: Seq<Entry>) -> Option<Seq<char>> {
    if args.len() == 1 {
        args[0].value.spec_string()
    } else {
        None
    }
}

/// Extract a single un-named string argument, like `discovery "Static"`
pub fn extract_one_str_arg<'a>(
    _doc: &Document,
    node: &Node,
    _name: &str,
    args: &'a Vec<Entry>,
) -> (r: Result<&'a str, Bad>)
    ensures
        match r {
            Ok(s) => one_str_arg(args@) == Some(s@),
            Err(e) => one_str_arg(args@).is_none() && e == (Bad {
                kind: BadKind::IncorrectArgument,
                span: node.span,
            }),
        },
{
    if args.len() == 1 {
        match args[0].value.as_string() {
            Some(s) => Ok(s),
            None => Err(Bad { kind: BadKind::IncorrectArgument, span: node.span }),
        }
    } else {
        Err(Bad { kind: BadKind::IncorrectArgument, span: node.span })
    }
}

/// Extract a single un-named bool argument, like `daemonize true`
pub fn extract_one_bool_arg(_doc: &Document, node: &Node, _name: &str, args: &Vec<Entry>) -> (r:
    Result<bool, Bad>)
    ensures
        r == (if args@.len() == 1 && args@[0].value.spec_bool().is_some() {
            Ok(args@[0].value.spec_bool().unwrap())
        } else {
            Err(Bad { kind: BadKind::IncorrectArgument, span: node.span })
        }),
{
    if args.len() == 1 {
        match args[0].value.as_bool() {
            Some(b) => Ok(b),
            None => Err(Bad { kind: BadKind::IncorrectArgument, span: node.span }),
        }
    } else {
        Err(Bad { kind: BadKind::IncorrectArgument, span: node.span })
    }
}

/// What is wrong with the first of `args` after the first that is no named
/// string, if there is one.
pub open spec fn kv_args_error(args: Seq<Entry>) -> Option<Bad>
    decreases args.len(),
{
    if args.len() <= 1 {
        None
    } else if kv_args_error(args.drop_last()).is_some() {
        kv_args_error(args.drop_last())
    } else if args.last().spec_name().is_none() {
        Some(Bad { kind: BadKind::ShouldBeNamedArgument, span: args.last().span })
    } else if args.last().value.spec_string().is_none() {
        Some(Bad { kind: BadKind::ShouldBeStringValue, span: args.last().span })
    } else {
        None
    }
}

proof fn lemma_kv_args_error_prefix(args: Seq<Entry>, k: int)
    requires
        0 <= k <= args.len(),
        kv_args_error(args.take(k)).is_some(),
    ensures
        kv_args_error(args) == kv_args_error(args.take(k)),
    decreases args.len(),
{
    if k == args.len() {
        assert(args.take(k) =~= args);
    } else {
        assert(args.drop_last().take(k) =~= args.take(k));
        lemma_kv_args_error_prefix(args.drop_last(), k);
    }
}

/// Like `extract_one_str_arg`, but with bonus "str:str" key/val pairs
///
/// `selection "Ketama" key="UriPath"`
///
/// The first entry is the string argument; every further entry is a pair,
/// handed back in order.
pub fn extract_one_str_arg_with_kv_args<'a>(
    _doc: &Document,
    node: &Node,
    _name: &str,
    args: &'a Vec<Entry>,
) -> (r: Result<(&'a str, Vec<(&'a str, &'a str)>), Bad>)
    ensures
        match r {
            Ok((first, kvs)) => args@.len() >= 1 && args@[0].value.spec_string() == Some(first@)
                && kv_args_error(args@).is_none() && kvs@.len() == args@.len() - 1 && forall|
                i: int,
            |
                0 <= i < kvs@.len() ==> Some((#[trigger] kvs@[i]).0@) == args@[i + 1].spec_name()
                    && Some(kvs@[i].1@) == args@[i + 1].value.spec_string(),
            Err(e) => if args@.len() == 0 {
                e == (Bad { kind: BadKind::MissingArguments, span: node.span })
            } else if args@[0].value.spec_string().is_none() {
                e == (Bad { kind: BadKind::IncorrectArgument, span: node.span })
            } else {
                kv_args_error(args@) == Some(e)
            },
        },
{
    if args.len() == 0 {
        return Err(Bad { kind: BadKind::MissingArguments, span: node.span });
    }
    let first = match args[0].value.as_string() {
        Some(s) => s,
        None => {
            return Err(Bad { kind: BadKind::IncorrectArgument, span: node.span });
        },
    };
    let mut kvs: Vec<(&'a str, &'a str)> = Vec::new();
    let mut i: usize = 1;
    assert(kv_args_error(args@.take(1)).is_none());
    while i < args.len()
        invariant
            1 <= i <= args@.len(),
            args@[0].value.spec_string() == Some(first@),
            kvs@.len() == i - 1,
            kv_args_error(args@.take(i as int)).is_none(),
            forall|j: int|
                0 <= j < i - 1 ==> Some((#[trigger] kvs@[j]).0@) == args@[j + 1].spec_name()
                    && Some(kvs@[j].1@) == args@[j + 1].value.spec_string(),
        decreases args@.len() - i,
    {
        let arg = &args[i];
        proof {
            assert(args@.take(i + 1).drop_last() =~= args@.take(i as int));
            assert(args@.take(i + 1).last() == args@[i as int]);
        }
        let key = match arg.name() {
            Some(n) => n,
            None => {
                proof {
                    lemma_kv_args_error_prefix(args@, i + 1);
                }
                return Err(Bad { kind: BadKind::ShouldBeNamedArgument, span: arg.span });
            },
        };
        let val = match arg.value.as_string() {
            Some(v) => v,
            None => {
                proof {
                    lemma_kv_args_error_prefix(args@, i + 1);
                }
                return Err(Bad { kind: BadKind::ShouldBeStringValue, span: arg.span });
            },
        };
        kvs.push((key, val));
        i += 1;
    }
    assert(args@.take(i as int) =~= args@);
    Ok((first, kvs))
}

} // verus!
