//! Namespaces: the ordered, non-empty path segments under which a catalog
//! groups its tables.
use crate::error::IcebergError;
use crate::text::{interspersed, join, joined, lemma_split_joined, split, split_on};
use crate::urlencoded::{
    ascii_text, byte_serialized, first_name, first_pair_name, form_encoded,
    lemma_first_name_round_trip, lemma_form_encoded_bytes,
};
use vstd::prelude::*;
use vstd::string::*;
use vstd::utf8::*;

verus! {

/// The unit separator, which stands between the levels of an encoded
/// namespace.
pub open spec fn unit_separator() -> char {
    '\u{1f}'
}

/// No level is the empty string.
pub open spec fn no_empty_level(levels: Seq<Seq<char>>) -> bool {
    forall|i: int| 0 <= i < levels.len() ==> (#[trigger] levels[i]).len() > 0
}

/// The token for a sequence of levels: the levels joined by the unit
/// separator, form-encoded.
pub open spec fn url_encoded(levels: Seq<Seq<char>>) -> Seq<char> {
    ascii_text(form_encoded(encode_utf8(joined(levels, seq![unit_separator()]))))
}

/// The levels that a token stands for. The empty token stands for the
/// namespace without levels. Any other token stands for the name of its
/// first pair, cut at each unit separator, and for nothing if it holds no
/// pair.
pub open spec fn url_decoded(token: Seq<char>) -> Option<Seq<Seq<char>>> {
    if token.len() == 0 {
        Some(Seq::empty())
    } else {
        match first_name(token) {
            Some(name) => Some(split_on(name, unit_separator())),
            None => None,
        }
    }
}

/// A namespace of a catalog. Its view is the sequence of its levels.
#[derive(Debug, PartialEq, Eq, Hash)]
pub struct Namespace(Vec<String>);

impl View for Namespace {
    type V = Seq<Seq<char>>;

    closed spec fn view(&self) -> Seq<Seq<char>> {
        self.0.deep_view()
    }
}

impl DeepView for Namespace {
    type V = Seq<Seq<char>>;

    open spec fn deep_view(&self) -> Seq<Seq<char>> {
        self@
    }
}

impl Clone for Namespace {
    fn clone(&self) -> (copy: Self)
        ensures
            copy@ == self@,
    {
        proof {
            use_type_invariant(self);
        }
        let levels = self.0.clone();
        assert(levels.deep_view() =~= self.0.deep_view());
        Namespace(levels)
    }
}

impl std::ops::Deref for Namespace {
    type Target = [String];

    fn deref(&self) -> (levels: &[String])
        ensures
            levels.deep_view() == self@,
    {
        let levels = self.0.as_slice();
        assert(levels.deep_view() =~= self.0.deep_view());
        levels
    }
}

impl Namespace {
    #[verifier::type_invariant]
    spec fn inv(self) -> bool {
        no_empty_level(self.0.deep_view())
    }

    /// Makes a namespace of the given levels, unless one of them is empty.
    pub fn try_new(levels: &[String]) -> (made: Result<Self, IcebergError>)
        ensures
            made is Ok <==> no_empty_level(levels.deep_view()),
            made is Ok ==> made->Ok_0@ == levels.deep_view(),
            made is Err ==> (made->Err_0 matches IcebergError::InvalidFormat(what) && what@
                == "namespace sequence"@),
    {
        let mut copy: Vec<String> = Vec::new();
        let mut i: usize = 0;
        while i < levels.len()
            invariant
                i <= levels.len(),
                copy.deep_view() == levels.deep_view().take(i as int),
                no_empty_level(copy.deep_view()),
            decreases levels.len() - i,
        {
            if levels[i].as_str().is_empty() {
                assert(levels.deep_view()[i as int].len() == 0);
                return Err(IcebergError::InvalidFormat(String::from_str("namespace sequence")));
            }
            let ghost before = copy.deep_view();
            copy.push(levels[i].clone());
            assert(copy.deep_view() =~= before.push(levels[i as int]@));
            assert(levels.deep_view().take(i + 1) =~= before.push(levels[i as int]@));
            i = i + 1;
        }
        assert(levels.deep_view().take(levels.len() as int) =~= levels.deep_view());
        Ok(Namespace(copy))
    }

    /// The namespace without levels.
    pub fn empty() -> (made: Self)
        ensures
            made@.len() == 0,
    {
        let levels: Vec<String> = Vec::new();
        assert(levels.deep_view() =~= Seq::<Seq<char>>::empty());
        Namespace(levels)
    }

    /// The levels, outermost first. None of them is empty.
    pub fn levels(&self) -> (levels: &[String])
        ensures
            levels.deep_view() == self@,
            no_empty_level(self@),
    {
        proof {
            use_type_invariant(self);
        }
        let levels = self.0.as_slice();
        assert(levels.deep_view() =~= self.0.deep_view());
        levels
    }

    /// The namespace as one token that can stand in a URL.
    pub fn url_encode(&self) -> (token: String)
        ensures
            token@ == url_encoded(self@),
    {
        let text = join(&self.0, "\u{1f}");
        proof {
            reveal_strlit("\u{1f}");
            assert("\u{1f}"@ =~= seq![unit_separator()]);
        }
        byte_serialized(text.as_str().as_bytes())
    }

    /// Reads a namespace from a token. The empty token reads as the
    /// namespace without levels. Any other token must hold a pair, and the
    /// name of its first pair must not have an empty level.
    pub fn from_url_encoded(namespace: &str) -> (read: Result<Self, IcebergError>)
        ensures
            read is Ok <==> url_decoded(namespace@) is Some && no_empty_level(
                url_decoded(namespace@)->Some_0,
            ),
            read is Ok ==> read->Ok_0@ == url_decoded(namespace@)->Some_0,
            url_decoded(namespace@) is None ==> (read matches Err(IcebergError::InvalidFormat(what))
                && what@ == "Namespace "@ + namespace@ + " is empty"@),
            url_decoded(namespace@) is Some && read is Err ==> (read->Err_0
                matches IcebergError::InvalidFormat(what) && what@ == "namespace sequence"@),
    {
        if namespace.is_empty() {
            let read = Namespace::empty();
            assert(read@ =~= Seq::<Seq<char>>::empty());
            return Ok(read);
        }
        match first_pair_name(namespace.as_bytes()) {
            Some(name) => {
                assert(first_name(namespace@) == Some(name@));
                let levels = split(name.as_str(), '\u{1f}');
                Namespace::try_new(levels.as_slice())
            },
            None => {
                let mut what = String::from_str("Namespace ");
                what.append(namespace);
                what.append(" is empty");
                Err(IcebergError::InvalidFormat(what))
            },
        }
    }

    /// The levels with a dot between neighbours.
    pub fn to_string(&self) -> (text: String)
        ensures
            text@ == joined(self@, "."@),
    {
        interspersed(&self.0, ".")
    }
}

/// Encoding a namespace and reading the token again gives the same levels,
/// the namespace without levels included. Only a level that holds the unit
/// separator is left out: joined with its neighbours it can no longer be
/// told from two levels.
pub proof fn lemma_url_round_trip(levels: Seq<Seq<char>>)
    requires
        no_empty_level(levels),
        forall|i: int| 0 <= i < levels.len() ==> !(#[trigger] levels[i]).contains(unit_separator()),
    ensures
        url_decoded(url_encoded(levels)) == Some(levels),
{
    let text = joined(levels, seq![unit_separator()]);
    if levels.len() == 0 {
        assert(encode_utf8(text) =~= Seq::<u8>::empty());
        assert(url_encoded(levels) =~= Seq::<char>::empty());
        assert(levels =~= Seq::<Seq<char>>::empty());
    } else {
        assert(text.len() > 0) by {
            assert(levels[0].len() > 0);
            if levels.len() > 1 {
                assert(text == levels[0] + seq![unit_separator()] + joined(
                    levels.drop_first(),
                    seq![unit_separator()],
                ));
            }
        }
        lemma_first_name_round_trip(text);
        lemma_split_joined(levels, unit_separator());
        assert(url_encoded(levels).len() > 0) by {
            assert(encode_scalar(text[0] as u32).len() > 0);
            lemma_form_encoded_bytes(encode_utf8(text));
        }
    }
}

} // verus!
