//! The pieces of surface syntax that the engine reads or writes: paths, expressions, types.

use vstd::prelude::*;
use vstd::string::StringExecFns;

verus! {

/// Whether a character can begin a name: an underscore, a letter of the Latin alphabet, or
/// any character outside ASCII.
pub open spec fn is_identifier_start(c: char) -> bool {
    let code = c as u32;
    code == 95 || (97 <= code <= 122) || (65 <= code <= 90) || code >= 128
}

/// Whether a character can stand inside a name: what can begin one, or a digit.
pub open spec fn is_identifier_continue(c: char) -> bool {
    is_identifier_start(c) || (48 <= c as u32 <= 57)
}

/// Whether a text is a name: it is not empty, begins with a character that can begin a
/// name, and goes on with characters that can stand inside one. A name therefore holds no
/// colon, bracket, blank or other punctuation.
pub open spec fn is_identifier(text: Seq<char>) -> bool {
    &&& text.len() > 0
    &&& is_identifier_start(text[0])
    &&& forall|i: int| 0 < i < text.len() ==> is_identifier_continue(#[trigger] text[i])
}

/// A name. Its text is always a name in the sense of [`is_identifier`].
#[derive(Debug, PartialEq, Eq)]
pub struct Ident {
    text: String,
}

impl View for Ident {
    type V = Seq<char>;

    closed spec fn view(&self) -> Seq<char> {
        self.text@
    }
}

impl Clone for Ident {
    fn clone(&self) -> (r: Ident)
        ensures
            r == *self,
    {
        proof {
            use_type_invariant(self);
        }
        Ident { text: self.text.clone() }
    }
}

impl Ident {
    /// What holds of every name.
    #[verifier::type_invariant]
    pub open spec fn well_formed(self) -> bool {
        is_identifier(self@)
    }

    /// The name of the given text, if that is a name.
    pub fn new(text: &str) -> (r: Option<Ident>)
        ensures
            match r {
                Some(ident) => ident@ == text@ && is_identifier(text@),
                None => !is_identifier(text@),
            },
    {
        let len = text.unicode_len();
        if len == 0 {
            return None;
        }
        let mut i: usize = 0;
        while i < len
            invariant
                i <= len,
                len == text@.len(),
                i > 0 ==> is_identifier_start(text@[0]),
                forall|j: int| 0 < j < i ==> is_identifier_continue(#[trigger] text@[j]),
            decreases len - i,
        {
            let code = text.get_char(i) as u32;
            let starts = code == 95 || (97 <= code && code <= 122) || (65 <= code && code <= 90)
                || code >= 128;
            let continues = starts || (48 <= code && code <= 57);
            if (i == 0 && !starts) || !continues {
                return None;
            }
            i += 1;
        }
        Some(Ident { text: String::from_str(text) })
    }

    /// The text of the name.
    pub fn as_str(&self) -> (r: &str)
        ensures
            r@ == self@,
            is_identifier(self@),
    {
        proof {
            use_type_invariant(self);
        }
        self.text.as_str()
    }

    /// The text of the name, as a string of its own.
    pub fn to_string(&self) -> (r: String)
        ensures
            r@ == self@,
            is_identifier(self@),
    {
        proof {
            use_type_invariant(self);
        }
        self.text.clone()
    }
}

/// What follows the name of a path segment.
#[derive(Debug, PartialEq, Eq)]
pub enum PathArguments {
    Absent,
    /// Generic arguments between angle brackets, as written.
    AngleBracketed(String),
    /// Arguments between parentheses, as written.
    Parenthesized(String),
}

/// One segment of a path: a name, and what follows it.
#[derive(Debug, PartialEq, Eq)]
pub struct PathSegment {
    pub ident: Ident,
    pub arguments: PathArguments,
}

/// A path: segments separated by double colons, with or without a leading one.
#[derive(Debug, PartialEq, Eq)]
pub struct Path {
    pub leading_colon: bool,
    pub segments: Vec<PathSegment>,
}

/// An expression, as far as the engine tells expressions apart.
#[derive(Debug, PartialEq, Eq)]
pub enum Expr {
    Path(Path),
    /// A string literal, by its value.
    Str(String),
    /// Any other expression, as written.
    Verbatim(String),
}

/// A type, as far as the engine builds types.
#[derive(Debug, PartialEq, Eq)]
pub enum Type {
    Path(Path),
    /// A tuple; every element type stands as written.
    Tuple(Vec<String>),
    /// Any other type, as written.
    Verbatim(String),
}

impl Expr {
    /// Every name in the expression is a name.
    pub open spec fn wf(&self) -> bool {
        match self {
            Expr::Path(path) => path.wf(),
            _ => true,
        }
    }

    /// The name that the expression consists of, if it is a path of one plain name.
    pub open spec fn single_name(&self) -> Option<Seq<char>> {
        match self {
            Expr::Path(path) => if path.is_single() {
                Some(path.segments@[0].ident@)
            } else {
                None
            },
            _ => None,
        }
    }
}

impl Path {
    /// Every segment of the path is called by a name.
    pub open spec fn wf(&self) -> bool {
        forall|i: int| 0 <= i < self.segments@.len() ==> (#[trigger] self.segments@[i]).wf()
    }

    /// The name that the path consists of, if it is one plain name.
    pub open spec fn single_name(&self) -> Option<Seq<char>> {
        if self.is_single() {
            Some(self.segments@[0].ident@)
        } else {
            None
        }
    }

    /// The path is one plain name: no leading colons, one segment, nothing after the name.
    pub open spec fn is_single(&self) -> bool {
        &&& !self.leading_colon
        &&& self.segments@.len() == 1
        &&& self.segments@[0].arguments is Absent
    }
}

impl Type {
    /// Every name in the type is a name.
    pub open spec fn wf(&self) -> bool {
        match self {
            Type::Path(path) => path.wf(),
            _ => true,
        }
    }

    /// The type is the path that consists of the one name `ident`.
    pub open spec fn is_ident(&self, ident: Seq<char>) -> bool {
        &&& self matches Type::Path(path)
        &&& path.is_single()
        &&& path.segments@[0].ident@ == ident
    }

    /// The type is the tuple without elements.
    pub open spec fn is_unit(&self) -> bool {
        self matches Type::Tuple(elems) && elems@.len() == 0
    }
}

/// The text of a run of path segments: the segments, with a double colon between any two.
pub open spec fn segments_text(segments: Seq<PathSegment>) -> Seq<char>
    decreases segments.len(),
{
    if segments.len() == 0 {
        Seq::empty()
    } else if segments.len() == 1 {
        segments.last().text()
    } else {
        segments_text(segments.drop_last()) + "::"@ + segments.last().text()
    }
}

/// The text of the elements of a tuple type: every element, each followed by a comma.
pub open spec fn elems_text(elems: Seq<Seq<char>>) -> Seq<char>
    decreases elems.len(),
{
    if elems.len() == 0 {
        Seq::empty()
    } else {
        elems_text(elems.drop_last()) + elems.last() + ","@
    }
}

/// The text of the tuple type of the given element types.
pub open spec fn tuple_text(elems: Seq<Seq<char>>) -> Seq<char> {
    "("@ + elems_text(elems) + ")"@
}

impl PathSegment {
    /// The segment is called by a name.
    pub open spec fn wf(&self) -> bool {
        is_identifier(self.ident@)
    }

    /// The segment as it is written.
    pub open spec fn text(&self) -> Seq<char> {
        match self.arguments {
            PathArguments::Absent => self.ident@,
            PathArguments::AngleBracketed(inner) => self.ident@ + "<"@ + inner@ + ">"@,
            PathArguments::Parenthesized(inner) => self.ident@ + "("@ + inner@ + ")"@,
        }
    }

    /// Writes the segment.
    pub fn tokens(&self) -> (r: String)
        ensures
            r@ == self.text(),
    {
        let mut text = self.ident.to_string();
        match &self.arguments {
            PathArguments::Absent => {},
            PathArguments::AngleBracketed(inner) => {
                text.append("<");
                text.append(inner.as_str());
                text.append(">");
            },
            PathArguments::Parenthesized(inner) => {
                text.append("(");
                text.append(inner.as_str());
                text.append(")");
            },
        }
        text
    }
}

impl Path {
    /// The path as it is written.
    pub open spec fn text(&self) -> Seq<char> {
        if self.leading_colon {
            "::"@ + segments_text(self.segments@)
        } else {
            segments_text(self.segments@)
        }
    }

    /// Writes the path.
    pub fn tokens(&self) -> (r: String)
        ensures
            r@ == self.text(),
    {
        let mut text = String::new();
        let ghost head: Seq<char> = if self.leading_colon {
            "::"@
        } else {
            Seq::empty()
        };
        if self.leading_colon {
            text.append("::");
        }
        assert(text@ =~= head);
        let mut i: usize = 0;
        assert(self.segments@.take(0) =~= Seq::<PathSegment>::empty());
        while i < self.segments.len()
            invariant
                i <= self.segments.len(),
                text@ == head + segments_text(self.segments@.take(i as int)),
            decreases self.segments.len() - i,
        {
            let ghost before = text@;
            proof {
                assert(self.segments@.take(i + 1).drop_last() =~= self.segments@.take(i as int));
                assert(self.segments@.take(i + 1).last() == self.segments@[i as int]);
                if i == 0 {
                    assert(segments_text(self.segments@.take(0)) =~= Seq::<char>::empty());
                }
            }
            if i > 0 {
                text.append("::");
            }
            let segment = self.segments[i].tokens();
            text.append(segment.as_str());
            assert(text@ =~= head + segments_text(self.segments@.take(i + 1)));
            i += 1;
        }
        assert(self.segments@.take(i as int) =~= self.segments@);
        assert(text@ =~= self.text());
        text
    }
}

impl Type {
    /// The type as it is written.
    pub open spec fn text(&self) -> Seq<char> {
        match self {
            Type::Path(path) => path.text(),
            Type::Tuple(elems) => tuple_text(elems@.map_values(|e: String| e@)),
            Type::Verbatim(text) => text@,
        }
    }

    /// Writes the type.
    pub fn tokens(&self) -> (r: String)
        ensures
            r@ == self.text(),
    {
        match self {
            Type::Path(path) => path.tokens(),
            Type::Tuple(elems) => {
                let ghost views = elems@.map_values(|e: String| e@);
                let mut text = String::from_str("(");
                let mut i: usize = 0;
                assert(text@ =~= "("@ + elems_text(views.take(0)));
                while i < elems.len()
                    invariant
                        i <= elems.len(),
                        views == elems@.map_values(|e: String| e@),
                        text@ == "("@ + elems_text(views.take(i as int)),
                    decreases elems.len() - i,
                {
                    proof {
                        assert(views.take(i + 1).drop_last() =~= views.take(i as int));
                        assert(views.take(i + 1).last() == elems@[i as int]@);
                    }
                    text.append(elems[i].as_str());
                    text.append(",");
                    assert(text@ =~= "("@ + elems_text(views.take(i + 1)));
                    i += 1;
                }
                assert(views.take(i as int) =~= views);
                text.append(")");
                text
            },
            Type::Verbatim(text) => text.clone(),
        }
    }
}

/// The type of one plain name is written as that name.
pub proof fn lemma_ident_text(ty: Type, ident: Seq<char>)
    requires
        ty.is_ident(ident),
    ensures
        ty.text() == ident,
{
}

/// The unit type is written as a pair of parentheses with nothing between them.
pub proof fn lemma_unit_text(ty: Type)
    requires
        ty.is_unit(),
    ensures
        ty.text() == tuple_text(Seq::empty()),
{
    assert(ty->Tuple_0@.map_values(|e: String| e@) =~= Seq::<Seq<char>>::empty());
}

} // verus!
