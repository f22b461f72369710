use vstd::prelude::*;

use vstd::string::StringExecFns;

use crate::value::Span;

verus! {

broadcast use {vstd::std_specs::vec::axiom_vec_decreases_to_view, vstd::seq::axiom_seq_index_decreases, vstd::seq::axiom_seq_subrange_decreases};

/// An imported symbol, possibly renamed: `symbol` or `symbol as alias`.
#[derive(Debug)]
pub struct ImportSymbol {
    pub symbol: String,
    pub alias: Option<String>,
    pub span: Span,
}

/// A package path segment and what is imported from below it: `name.access`.
#[derive(Debug)]
pub struct Package {
    pub name: String,
    pub access: PackageAccess,
    pub span: Span,
}

/// Several imports from one package.
#[derive(Debug)]
pub struct Packages {
    pub name: String,
    pub accesses: Vec<PackageAccess>,
    pub span: Span,
}

/// What an import statement takes from a package.
#[derive(Debug)]
pub enum PackageAccess {
    Star(Span),
    SubPackage(Box<Package>),
    Symbol(ImportSymbol),
    Multiple(Packages),
}

pub open spec fn symbol_text(s: ImportSymbol) -> Seq<char> {
    match s.alias {
        Some(a) => s.symbol@ + " as "@ + a@,
        None => s.symbol@,
    }
}

/// The source text of an access.
pub open spec fn access_text(a: PackageAccess) -> Seq<char>
    decreases a,
{
    match a {
        PackageAccess::Star(_) => seq!['*'],
        PackageAccess::SubPackage(p) => p.name@ + seq!['.'] + access_text(p.access),
        PackageAccess::Symbol(s) => symbol_text(s),
        PackageAccess::Multiple(ps) => seq!['('] + list_text(ps.accesses@) + seq![')'],
    }
}

/// The texts of `s`, separated by `, `.
pub open spec fn list_text(s: Seq<PackageAccess>) -> Seq<char>
    decreases s,
{
    if s.len() == 0 {
        Seq::empty()
    } else if s.len() == 1 {
        access_text(s[0])
    } else {
        list_text(s.subrange(0, s.len() - 1)) + seq![',', ' '] + access_text(s[s.len() - 1])
    }
}

impl ImportSymbol {
    pub fn format(&self) -> (r: String)
        ensures
            r@ == symbol_text(*self),
    {
        match &self.alias {
            Some(a) => {
                proof {
                    reveal_strlit(" as ");
                }
                self.symbol.clone().concat(" as ").concat(a.as_str())
            },
            None => self.symbol.clone(),
        }
    }
}

impl PackageAccess {
    /// The source text: `*`, `name.access`, the symbol, or the accesses in
    /// parentheses separated by `, `.
    pub fn format(&self) -> (r: String)
        ensures
            r@ == access_text(*self),
        decreases self,
    {
        match self {
            PackageAccess::Star(_) => {
                proof {
                    reveal_strlit("*");
                }
                "*".to_owned()
            },
            PackageAccess::SubPackage(p) => {
                proof {
                    reveal_strlit(".");
                }
                let inner = p.access.format();
                p.name.clone().concat(".").concat(inner.as_str())
            },
            PackageAccess::Symbol(s) => s.format(),
            PackageAccess::Multiple(ps) => {
                proof {
                    reveal_strlit("(");
                    reveal_strlit(")");
                    reveal_strlit(", ");
                }
                let ghost all = ps.accesses@;
                let mut r = "(".to_owned();
                let mut i: usize = 0;
                assert(all.subrange(0, 0) =~= Seq::<PackageAccess>::empty());
                while i < ps.accesses.len()
                    invariant
                        i <= all.len(),
                        all == ps.accesses@,
                        *self is Multiple,
                        *ps == self->Multiple_0,
                        r@ == seq!['('] + list_text(all.subrange(0, i as int)),
                        "("@ == seq!['('],
                        ", "@ == seq![',', ' '],
                    decreases all.len() - i,
                {
                    let ghost after = all.subrange(0, i + 1);
                    assert(after.subrange(0, i as int) =~= all.subrange(0, i as int));
                    assert(after[i as int] == all[i as int]);
                    if i > 0 {
                        r.append(", ");
                    }
                    assert(decreases_to!(ps.accesses@ => ps.accesses@[i as int]));
                    let item = ps.accesses[i].format();
                    r.append(item.as_str());
                    i = i + 1;
                    assert(r@ =~= seq!['('] + list_text(after));
                }
                assert(all.subrange(0, i as int) =~= all);
                r.concat(")")
            },
        }
    }
}

} // verus!
