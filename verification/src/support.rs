//! What the documentation of an item says about the QUIC implementations that support it.

use crate::util::describe;
use vstd::prelude::*;

verus! {

/// An argument of a declaration of support.
pub enum Arg {
    /// The name of a QUIC implementation.
    Name(String),
    /// Something else, which is ignored.
    Other,
}

/// An attribute of an item.
pub enum ItemAttr {
    /// A declaration of support, with its arguments.
    Support(Vec<Arg>),
    /// Another attribute, given by its index.
    Other(usize),
}

/// An attribute of an item whose documentation is complete.
pub enum DocAttr {
    /// An attribute that the item had before, given by its index.
    Kept(usize),
    /// A line of documentation.
    Doc(String),
}

/// Why the documentation of an item cannot be completed.
#[derive(Debug)]
pub enum SupportError {
    /// There are several declarations.
    Multiple,
    /// A QUIC implementation is unknown, the one that the argument with this index names.
    Unknown(usize, String),
}

/// The first lines of a list of QUIC implementations.
pub open spec fn heading(i: int) -> Seq<char> {
    if i == 0 {
        ""@
    } else if i == 1 {
        "# Limited Support"@
    } else {
        "Only the following QUIC implementations support this feature:"@
    }
}

/// The link to a QUIC implementation with the given name, `None` if it is unknown.
pub open spec fn link(name: Seq<char>) -> Option<Seq<char>> {
    if name == "quiche"@ {
        Some("[quiche](https://github.com/cloudflare/quiche)"@)
    } else if name == "quinn"@ {
        Some("[quinn-proto](https://github.com/quinn-rs/quinn)"@)
    } else {
        None
    }
}

/// The names among arguments are those of known QUIC implementations.
pub open spec fn is_known(args: Seq<Arg>) -> bool {
    forall|i: int| 0 <= i < args.len() ==> is_known_arg(#[trigger] args[i])
}

/// The argument does not name an unknown QUIC implementation.
pub open spec fn is_known_arg(arg: Arg) -> bool {
    arg matches Arg::Name(name) ==> link(name@) is Some
}

/// The lines of a list of QUIC implementations.
pub open spec fn lines_of(args: Seq<Arg>) -> Seq<Seq<char>>
    decreases args.len(),
{
    if args.len() == 0 {
        seq![heading(0), heading(1), heading(2)]
    } else {
        let before = lines_of(args.drop_last());
        match args.last() {
            Arg::Name(name) => before.push("- "@ + link(name@)->0),
            Arg::Other => before,
        }
    }
}

/// The indices of the attributes that are no declarations.
pub open spec fn others(attrs: Seq<ItemAttr>) -> Seq<usize>
    decreases attrs.len(),
{
    if attrs.len() == 0 {
        Seq::empty()
    } else {
        match attrs.last() {
            ItemAttr::Other(index) => others(attrs.drop_last()).push(index),
            ItemAttr::Support(_) => others(attrs.drop_last()),
        }
    }
}

/// The arguments of the declarations.
pub open spec fn declarations(attrs: Seq<ItemAttr>) -> Seq<Seq<Arg>>
    decreases attrs.len(),
{
    if attrs.len() == 0 {
        Seq::empty()
    } else {
        match attrs.last() {
            ItemAttr::Other(_) => declarations(attrs.drop_last()),
            ItemAttr::Support(args) => declarations(attrs.drop_last()).push(args@),
        }
    }
}

/// The lines that are written for an item.
pub open spec fn doc_lines(attrs: Seq<ItemAttr>) -> Seq<Seq<char>> {
    let declared = declarations(attrs);
    if declared.len() == 0 || declared[0].len() == 0 {
        Seq::empty()
    } else {
        lines_of(declared[0])
    }
}

/// The attributes are the given ones and lines of documentation.
pub open spec fn is_documented(
    out: Seq<DocAttr>,
    kept: Seq<usize>,
    lines: Seq<Seq<char>>,
) -> bool {
    &&& out.len() == kept.len() + lines.len()
    &&& forall|i: int| 0 <= i < kept.len() ==> #[trigger] out[i] == DocAttr::Kept(kept[i])
    &&& forall|i: int|
        kept.len() <= i < out.len() ==> ((#[trigger] out[i]) matches DocAttr::Doc(line) && line@
            == lines[i - kept.len()])
}

/// Returns the link to a QUIC implementation with the given name, `None` if it is unknown.
pub fn find_link(name: &String) -> (r: Option<&'static str>)
    ensures
        match r {
            Some(url) => link(name@) == Some(url@),
            None => link(name@) is None,
        },
{
    if *name == "quiche".to_string() {
        Some("[quiche](https://github.com/cloudflare/quiche)")
    } else if *name == "quinn".to_string() {
        Some("[quinn-proto](https://github.com/quinn-rs/quinn)")
    } else {
        None
    }
}

/// Returns the lines of a list of QUIC implementations.
pub fn support_lines(args: &Vec<Arg>) -> (r: Result<Vec<String>, SupportError>)
    ensures
        r is Ok <==> is_known(args@),
        r matches Ok(lines) ==> lines@.map_values(|line: String| line@) == lines_of(args@),
        r matches Err(error) ==> {
            &&& error matches SupportError::Unknown(index, name)
            &&& index < args@.len()
            &&& args@[index as int] == Arg::Name(name)
            &&& link(name@) is None
            &&& is_known(args@.take(index as int))
        },
{
    let mut lines: Vec<String> = Vec::new();
    lines.push("".to_string());
    lines.push("# Limited Support".to_string());
    lines.push("Only the following QUIC implementations support this feature:".to_string());
    let mut i: usize = 0;
    proof {
        assert(args@.take(0).len() == 0);
        assert(lines@.map_values(|line: String| line@) =~= lines_of(args@.take(0)));
    }
    while i < args.len()
        invariant
            i <= args@.len(),
            is_known(args@.take(i as int)),
            lines@.map_values(|line: String| line@) == lines_of(args@.take(i as int)),
        decreases args@.len() - i,
    {
        let ghost before = lines@;
        let ghost taken = args@.take(i + 1);
        assert(taken.drop_last() =~= args@.take(i as int));
        assert(taken.last() == args@[i as int]);
        if let Arg::Name(name) = &args[i] {
            match find_link(name) {
                Some(url) => {
                    let line = describe::put_behind("- ".to_string(), url);
                    lines.push(line);
                    assert(lines@.map_values(|line: String| line@) =~= before.map_values(
                        |line: String| line@,
                    ).push(line@));
                },
                None => {
                    assert(!is_known_arg(args@[i as int]));
                    return Err(SupportError::Unknown(i, name.clone()));
                },
            }
        }
        assert(is_known(taken)) by {
            assert forall|k: int| 0 <= k < taken.len() implies is_known_arg(
                #[trigger] taken[k],
            ) by {
                if k < i {
                    assert(args@.take(i as int)[k] == taken[k]);
                }
            }
        }
        i = i + 1;
    }
    assert(args@.take(i as int) =~= args@);
    Ok(lines)
}

/// Writes information about different QUIC implementations support behind the attributes
/// of an item, and takes the declaration of it out.
pub fn append_docs(attrs: &Vec<ItemAttr>) -> (r: Result<Vec<DocAttr>, SupportError>)
    ensures
        match r {
            Ok(out) => {
                &&& declarations(attrs@).len() <= 1
                &&& declarations(attrs@).len() == 1 ==> is_known(declarations(attrs@)[0])
                &&& is_documented(out@, others(attrs@), doc_lines(attrs@))
            },
            Err(SupportError::Multiple) => declarations(attrs@).len() > 1,
            Err(SupportError::Unknown(index, name)) => {
                &&& declarations(attrs@).len() == 1
                &&& index < declarations(attrs@)[0].len()
                &&& declarations(attrs@)[0][index as int] == Arg::Name(name)
                &&& link(name@) is None
                &&& is_known(declarations(attrs@)[0].take(index as int))
            },
        },
{
    let mut out: Vec<DocAttr> = Vec::new();
    let mut declared: Option<usize> = None;
    let mut i: usize = 0;
    assert(attrs@.take(0).len() == 0);
    while i < attrs.len()
        invariant
            i <= attrs@.len(),
            is_documented(out@, others(attrs@.take(i as int)), Seq::empty()),
            match declared {
                None => declarations(attrs@.take(i as int)).len() == 0,
                Some(at) => {
                    &&& at < i
                    &&& attrs@[at as int] is Support
                    &&& declarations(attrs@.take(i as int)) == seq![attrs@[at as int]->Support_0@]
                },
            },
        decreases attrs@.len() - i,
    {
        let ghost taken = attrs@.take(i + 1);
        assert(taken.drop_last() =~= attrs@.take(i as int));
        assert(taken.last() == attrs@[i as int]);
        match &attrs[i] {
            ItemAttr::Other(index) => {
                out.push(DocAttr::Kept(*index));
            },
            ItemAttr::Support(_) => {
                if declared.is_some() {
                    proof {
                        assert(declarations(taken).len() == 2);
                        lemma_declarations_grow(attrs@, i + 1);
                    }
                    return Err(SupportError::Multiple);
                }
                declared = Some(i);
                assert(declarations(taken) =~= seq![attrs@[i as int]->Support_0@]);
            },
        }
        i = i + 1;
    }
    assert(attrs@.take(i as int) =~= attrs@);
    let Some(at) = declared else {
        return Ok(out);
    };
    let ItemAttr::Support(args) = &attrs[at] else {
        return Ok(out);
    };
    if args.len() == 0 {
        return Ok(out);
    }
    let ghost kept = out@;
    let lines = match support_lines(args) {
        Ok(lines) => lines,
        Err(error) => {
            return Err(error);
        },
    };
    let ghost texts = lines@.map_values(|line: String| line@);
    let mut k: usize = 0;
    while k < lines.len()
        invariant
            k <= lines@.len(),
            texts == lines@.map_values(|line: String| line@),
            is_documented(kept, others(attrs@), Seq::empty()),
            is_documented(out@, others(attrs@), texts.take(k as int)),
        decreases lines@.len() - k,
    {
        out.push(DocAttr::Doc(lines[k].clone()));
        assert(texts[k as int] == lines@[k as int]@);
        k = k + 1;
    }
    assert(texts.take(k as int) =~= texts);
    Ok(out)
}

/// With more attributes there are no fewer declarations.
proof fn lemma_declarations_grow(attrs: Seq<ItemAttr>, n: int)
    requires
        0 <= n <= attrs.len(),
    ensures
        declarations(attrs.take(n)).len() <= declarations(attrs).len(),
    decreases attrs.len() - n,
{
    if n < attrs.len() {
        lemma_declarations_grow(attrs, n + 1);
        assert(attrs.take(n + 1).drop_last() =~= attrs.take(n));
    } else {
        assert(attrs.take(n) =~= attrs);
    }
}

impl SupportError {
    /// The description of the error.
    pub open spec fn spec_message(&self) -> Seq<char> {
        match *self {
            SupportError::Multiple => "There is no need to include multiple #[doc_support] declarations on a single item. You can combine them like this: #[doc_support(1, 2, 3)]"@,
            SupportError::Unknown(_, name) => describe::around(
                "Unknown QUIC implementation: '"@,
                name@,
                "', allowed values: [\"quiche\", \"quinn\"]"@,
            ),
        }
    }

    /// Returns the description of the error.
    pub fn message(&self) -> (r: String)
        ensures
            r@ == self.spec_message(),
    {
        match self {
            SupportError::Multiple => "There is no need to include multiple #[doc_support] declarations on a single item. You can combine them like this: #[doc_support(1, 2, 3)]".to_string(),
            SupportError::Unknown(_, name) => describe::put_around(
                "Unknown QUIC implementation: '",
                name.as_str(),
                "', allowed values: [\"quiche\", \"quinn\"]",
            ),
        }
    }
}

/// Each implementation that is named is listed in a line of its own, in the order of the names,
/// behind three lines of heading. Other arguments are not listed.
pub proof fn law_named_implementations_are_listed(args: Seq<Arg>, arg: Arg)
    ensures
        lines_of(Seq::empty()).len() == 3,
        lines_of(Seq::empty())[0].len() == 0,
        lines_of(Seq::empty())[1] == "# Limited Support"@,
        lines_of(Seq::empty())[2]
            == "Only the following QUIC implementations support this feature:"@,
        arg is Other ==> lines_of(args.push(arg)) == lines_of(args),
        arg matches Arg::Name(name) ==> {
            &&& name@ == "quiche"@ ==> lines_of(args.push(arg)) == lines_of(args).push(
                "- "@ + "[quiche](https://github.com/cloudflare/quiche)"@,
            )
            &&& name@ == "quinn"@ && name@ != "quiche"@ ==> lines_of(args.push(arg)) == lines_of(
                args,
            ).push("- "@ + "[quinn-proto](https://github.com/quinn-rs/quinn)"@)
            &&& link(name@) is Some <==> name@ == "quiche"@ || name@ == "quinn"@
        },
        is_known(args.push(arg)) <==> is_known(args) && is_known_arg(arg),
{
    assert(args.push(arg).drop_last() =~= args);
    reveal_strlit("");
    if is_known(args.push(arg)) {
        assert(is_known_arg(args.push(arg)[args.len() as int]));
        assert forall|i: int| 0 <= i < args.len() implies is_known_arg(#[trigger] args[i]) by {
            assert(args.push(arg)[i] == args[i]);
        }
    }
}

/// Attributes that are no declarations stay, in their order, and those alone. The lines of the
/// first declaration are written behind them, if it has any argument.
pub proof fn law_other_attributes_stay(attrs: Seq<ItemAttr>, attr: ItemAttr)
    ensures
        attr matches ItemAttr::Other(index) ==> {
            &&& others(attrs.push(attr)) == others(attrs).push(index)
            &&& declarations(attrs.push(attr)) == declarations(attrs)
            &&& doc_lines(attrs.push(attr)) == doc_lines(attrs)
        },
        attr matches ItemAttr::Support(args) ==> {
            &&& others(attrs.push(attr)) == others(attrs)
            &&& declarations(attrs.push(attr)) == declarations(attrs).push(args@)
            &&& declarations(attrs).len() > 0 ==> doc_lines(attrs.push(attr)) == doc_lines(attrs)
            &&& declarations(attrs).len() == 0 && args@.len() > 0 ==> doc_lines(attrs.push(attr))
                == lines_of(args@)
            &&& declarations(attrs).len() == 0 && args@.len() == 0 ==> doc_lines(
                attrs.push(attr),
            ).len() == 0
        },
        declarations(attrs).len() == 0 ==> doc_lines(attrs).len() == 0,
{
    assert(attrs.push(attr).drop_last() =~= attrs);
}

/// The attributes that were there come first, and the lines of documentation follow them.
pub proof fn law_documentation_follows_attributes(
    out: Seq<DocAttr>,
    kept: Seq<usize>,
    lines: Seq<Seq<char>>,
    i: int,
)
    requires
        is_documented(out, kept, lines),
        0 <= i < out.len(),
    ensures
        out.len() == kept.len() + lines.len(),
        i < kept.len() ==> out[i] == DocAttr::Kept(kept[i]),
        i >= kept.len() ==> (out[i] matches DocAttr::Doc(line) && line@ == lines[i - kept.len()]),
{
}

/// An unknown implementation is told with its name and the known ones.
pub proof fn law_unknown_implementation_is_told(index: usize, name: String)
    ensures
        SupportError::Unknown(index, name).spec_message() == "Unknown QUIC implementation: '"@
            + name@ + "', allowed values: [\"quiche\", \"quinn\"]"@,
        SupportError::Multiple.spec_message()
            == "There is no need to include multiple #[doc_support] declarations on a single item. You can combine them like this: #[doc_support(1, 2, 3)]"@,
{
}

} // verus!
