//! Identifiers: the namespace and the name under which a catalog knows a
//! table or a view.
use crate::error::IcebergError;
use crate::namespace::{no_empty_level, Namespace};
use crate::text::{split, split_on};
use vstd::prelude::*;
use vstd::slice::*;
use vstd::string::*;

verus! {

/// The plain value of an identifier.
pub struct IdentifierModel {
    pub namespace: Seq<Seq<char>>,
    pub name: Seq<char>,
}

/// The identifier that a sequence of names stands for: the last is the name,
/// those before it are the levels of the namespace.
pub open spec fn identifier_of(names: Seq<Seq<char>>) -> IdentifierModel {
    IdentifierModel { namespace: names.drop_last(), name: names.last() }
}

/// The identifier of a table or a view in a catalog. Its name is not empty.
#[derive(Debug, PartialEq, Eq, Hash)]
pub struct Identifier {
    namespace: Namespace,
    name: String,
}

impl View for Identifier {
    type V = IdentifierModel;

    closed spec fn view(&self) -> IdentifierModel {
        IdentifierModel { namespace: self.namespace@, name: self.name@ }
    }
}

impl DeepView for Identifier {
    type V = IdentifierModel;

    open spec fn deep_view(&self) -> IdentifierModel {
        self@
    }
}

impl Clone for Identifier {
    fn clone(&self) -> (copy: Self)
        ensures
            copy@ == self@,
    {
        proof {
            use_type_invariant(self);
        }
        Identifier { namespace: self.namespace.clone(), name: self.name.clone() }
    }
}

impl Identifier {
    #[verifier::type_invariant]
    spec fn inv(self) -> bool {
        self.name@.len() > 0
    }

    /// Makes an identifier of a sequence of names: the last is the name of
    /// the table, those before it are the levels of its namespace. There
    /// must be a name, and no name may be empty.
    pub fn try_new(names: &[String]) -> (made: Result<Self, IcebergError>)
        ensures
            made is Ok <==> names.len() > 0 && no_empty_level(names.deep_view()),
            made is Ok ==> made->Ok_0@ == identifier_of(names.deep_view()),
            names.len() == 0 ==> (made matches Err(IcebergError::InvalidFormat(what)) && what@
                == "identifier sequence"@),
            names.len() > 0 && names.deep_view().last().len() == 0 ==> (made matches Err(
                IcebergError::InvalidFormat(what),
            ) && what@ == "table name"@),
            names.len() > 0 && names.deep_view().last().len() > 0 && made is Err ==> (made->Err_0
                matches IcebergError::InvalidFormat(what) && what@ == "namespace sequence"@),
    {
        let length = names.len();
        if length == 0 {
            return Err(IcebergError::InvalidFormat(String::from_str("identifier sequence")));
        }
        if names[length - 1].as_str().is_empty() {
            assert(names.deep_view()[length - 1].len() == 0);
            return Err(IcebergError::InvalidFormat(String::from_str("table name")));
        }
        let levels = slice_subrange(names, 0, length - 1);
        assert(levels.deep_view() =~= names.deep_view().drop_last());
        assert(no_empty_level(names.deep_view()) <==> no_empty_level(levels.deep_view())) by {
            let all = names.deep_view();
            let front = levels.deep_view();
            assert(all[length - 1].len() > 0);
            if no_empty_level(front) {
                assert forall|i: int| 0 <= i < all.len() implies (#[trigger] all[i]).len() > 0 by {
                    if i < front.len() {
                        assert(front[i] == all[i]);
                    }
                }
            }
            if no_empty_level(all) {
                assert forall|i: int| 0 <= i < front.len() implies (#[trigger] front[i]).len()
                    > 0 by {
                    assert(front[i] == all[i]);
                }
            }
        }
        match Namespace::try_new(levels) {
            Ok(namespace) => Ok(Identifier { namespace, name: names[length - 1].clone() }),
            Err(error) => Err(error),
        }
    }

    /// Reads an identifier from its names written with dots between them.
    pub fn parse(identifier: &str) -> (read: Result<Self, IcebergError>)
        ensures
            read is Ok <==> no_empty_level(split_on(identifier@, '.')),
            read is Ok ==> read->Ok_0@ == identifier_of(split_on(identifier@, '.')),
            split_on(identifier@, '.').last().len() == 0 ==> (read matches Err(
                IcebergError::InvalidFormat(what),
            ) && what@ == "table name"@),
            split_on(identifier@, '.').last().len() > 0 && read is Err ==> (read->Err_0
                matches IcebergError::InvalidFormat(what) && what@ == "namespace sequence"@),
    {
        let names = split(identifier, '.');
        let names = names.as_slice();
        Identifier::try_new(names)
    }

    /// The namespace of the table.
    pub fn namespace(&self) -> (namespace: &Namespace)
        ensures
            namespace@ == self@.namespace,
    {
        &self.namespace
    }

    /// The name of the table. It is not empty.
    pub fn name(&self) -> (name: &str)
        ensures
            name@ == self@.name,
            name@.len() > 0,
    {
        proof {
            use_type_invariant(self);
        }
        self.name.as_str()
    }
}

} // verus!
