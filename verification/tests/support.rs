use aquic::support::{append_docs, find_link, support_lines, Arg, DocAttr, ItemAttr, SupportError};

fn name(text: &str) -> Arg {
    Arg::Name(String::from(text))
}

fn doc(attr: &DocAttr) -> &str {
    match attr {
        DocAttr::Doc(line) => line,
        DocAttr::Kept(_) => panic!("no line"),
    }
}

#[test]
fn implementations_have_links() {
    assert_eq!(
        find_link(&String::from("quiche")),
        Some("[quiche](https://github.com/cloudflare/quiche)")
    );
    assert_eq!(
        find_link(&String::from("quinn")),
        Some("[quinn-proto](https://github.com/quinn-rs/quinn)")
    );
    assert_eq!(find_link(&String::from("Quinn")), None);
}

#[test]
fn declared_implementations_are_listed() {
    let lines = support_lines(&vec![name("quinn"), Arg::Other, name("quiche")]).unwrap();
    assert_eq!(
        lines,
        vec![
            "",
            "# Limited Support",
            "Only the following QUIC implementations support this feature:",
            "- [quinn-proto](https://github.com/quinn-rs/quinn)",
            "- [quiche](https://github.com/cloudflare/quiche)",
        ]
    );
}

#[test]
fn documentation_stands_behind_the_other_attributes() {
    let attrs =
        vec![ItemAttr::Other(0), ItemAttr::Support(vec![name("quiche")]), ItemAttr::Other(2)];
    let out = append_docs(&attrs).unwrap();
    assert_eq!(out.len(), 6);
    assert!(matches!(out[0], DocAttr::Kept(0)));
    assert!(matches!(out[1], DocAttr::Kept(2)));
    assert_eq!(doc(&out[2]), "");
    assert_eq!(doc(&out[3]), "# Limited Support");
    assert_eq!(doc(&out[5]), "- [quiche](https://github.com/cloudflare/quiche)");
}

#[test]
fn nothing_is_written_without_a_declaration() {
    assert_eq!(append_docs(&vec![]).unwrap().len(), 0);
    let out = append_docs(&vec![ItemAttr::Other(3)]).unwrap();
    assert_eq!(out.len(), 1);
    assert!(matches!(out[0], DocAttr::Kept(3)));
    assert_eq!(append_docs(&vec![ItemAttr::Support(vec![])]).unwrap().len(), 0);
}

#[test]
fn several_declarations_are_refused() {
    let attrs = vec![ItemAttr::Support(vec![name("quinn")]), ItemAttr::Support(vec![])];
    let error = append_docs(&attrs).err().unwrap();
    assert!(matches!(error, SupportError::Multiple));
    assert_eq!(
        error.message(),
        "There is no need to include multiple #[doc_support] declarations on a single item. \
         You can combine them like this: #[doc_support(1, 2, 3)]"
    );
}

#[test]
fn unknown_implementation_is_refused() {
    let attrs = vec![ItemAttr::Support(vec![name("quinn"), name("s2n"), name("other")])];
    let error = append_docs(&attrs).err().unwrap();
    assert!(matches!(error, SupportError::Unknown(1, _)));
    assert_eq!(
        error.message(),
        "Unknown QUIC implementation: 's2n', allowed values: [\"quiche\", \"quinn\"]"
    );
}
