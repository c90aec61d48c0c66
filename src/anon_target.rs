use vstd::prelude::*;
use vstd::string::StringExecFns;

verus! {

/// An anonymous target as rule code holds it: the promise that settles to its
/// providers, and where it was declared, when known.
#[derive(Debug, Clone, PartialEq, Eq)]
pub struct AnonTarget {
    pub promise: usize,
    pub declaration_location: Option<String>,
}

pub open spec fn opening() -> Seq<char> {
    seq!['<', 'a', 'n', 'o', 'n', ' ', 't', 'a', 'r', 'g', 'e', 't']
}

pub open spec fn declared_at() -> Seq<char> {
    seq![' ', 'd', 'e', 'c', 'l', 'a', 'r', 'e', 'd', ' ', 'a', 't', ' ']
}

/// `<anon target>`, or `<anon target declared at LOCATION>`.
pub open spec fn anon_target_text(location: Option<Seq<char>>) -> Seq<char> {
    match location {
        Some(l) => opening() + declared_at() + l + seq!['>'],
        None => opening() + seq!['>'],
    }
}

impl AnonTarget {
    pub fn new(promise: usize, declaration_location: Option<String>) -> (r: AnonTarget)
        ensures
            r.promise == promise,
            r.declaration_location == declaration_location,
    {
        AnonTarget { promise, declaration_location }
    }

    /// How the target is shown to rule authors.
    pub fn to_display_string(&self) -> (r: String)
        ensures
            r@ == anon_target_text(
                match self.declaration_location {
                    Some(l) => Some(l@),
                    None => None,
                },
            ),
    {
        proof {
            reveal_strlit("<anon target");
            reveal_strlit(" declared at ");
            reveal_strlit(">");
        }
        let mut s = String::from_str("<anon target");
        assert(s@ =~= opening());
        match &self.declaration_location {
            Some(l) => {
                s.append(" declared at ");
                s.append(l.as_str());
                s.append(">");
                assert(s@ =~= opening() + declared_at() + l@ + seq!['>']);
            },
            None => {
                s.append(">");
                assert(s@ =~= opening() + seq!['>']);
            },
        }
        s
    }
}

} // verus!
