use leo_synthesizer::{ImportSymbol, Package, PackageAccess, Packages, Span};

fn span() -> Span {
    Span { line: 1, start: 1 }
}

fn symbol(name: &str, alias: Option<&str>) -> PackageAccess {
    PackageAccess::Symbol(ImportSymbol {
        symbol: name.to_string(),
        alias: alias.map(|a| a.to_string()),
        span: span(),
    })
}

#[test]
fn star_formats_as_asterisk() {
    assert_eq!(PackageAccess::Star(span()).format(), "*");
}

#[test]
fn symbol_formats_with_alias() {
    assert_eq!(symbol("Point", None).format(), "Point");
    assert_eq!(symbol("Point", Some("P")).format(), "Point as P");
}

#[test]
fn sub_package_formats_with_dot() {
    let a = PackageAccess::SubPackage(Box::new(Package {
        name: "math".to_string(),
        access: PackageAccess::Star(span()),
        span: span(),
    }));
    assert_eq!(a.format(), "math.*");
}

#[test]
fn multiple_formats_as_list() {
    let a = PackageAccess::Multiple(Packages {
        name: "lib".to_string(),
        accesses: vec![symbol("a", None), symbol("b", Some("c")), PackageAccess::Star(span())],
        span: span(),
    });
    assert_eq!(a.format(), "(a, b as c, *)");
    let empty = PackageAccess::Multiple(Packages { name: "lib".to_string(), accesses: vec![], span: span() });
    assert_eq!(empty.format(), "()");
}
