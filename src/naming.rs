//! A name in its eight case conventions, singular and plural.
use vstd::prelude::*;

use crate::text::{
    chars_of, push_all, replace_chars, replaced, split_chars, split_on, string_of, views,
};

verus! {

/// The plural argument that asks for the singular word to be used as plural.
pub const DEFAULT_PLURAL: &'static str = "%DEFAULT%";

/// What `str::to_lowercase` returns for a string.
pub uninterp spec fn lower_of(s: Seq<char>) -> Seq<char>;

/// What `char::to_uppercase` yields for a character.
pub uninterp spec fn upper_of(c: char) -> Seq<char>;

/// Relies on `str::to_lowercase`: the lowercase form of the string, which
/// depends on its characters alone.
#[verifier::external_body]
fn lowercase(s: &str) -> (r: String)
    ensures
        r@ == lower_of(s@),
{
    s.to_lowercase()
}

/// Relies on `char::to_uppercase`: the characters of the uppercase form of
/// `c`, which depend on `c` alone.
#[verifier::external_body]
fn uppercase_char(c: char) -> (r: Vec<char>)
    ensures
        r@ == upper_of(c),
{
    c.to_uppercase().collect()
}

/// One of the eight renderings of a name.
#[derive(Clone, Copy, Debug, PartialEq, Eq, Structural)]
pub enum NamingCase {
    SingularSnake,
    PluralSnake,
    SingularKebab,
    PluralKebab,
    SingularLowerCamel,
    PluralLowerCamel,
    SingularUpperCamel,
    PluralUpperCamel,
}

/// The plural word to derive from: the singular one where the plural
/// argument is the default marker.
pub open spec fn resolved_plural(singular: Seq<char>, plural: Seq<char>) -> Seq<char> {
    if plural == DEFAULT_PLURAL@ {
        singular
    } else {
        plural
    }
}

/// The kebab form: each underscore becomes a hyphen.
pub open spec fn kebab_of(s: Seq<char>) -> Seq<char> {
    replaced(s, seq!['_'], seq!['-'])
}

/// A word with its first character in upper case.
pub open spec fn capitalized(t: Seq<char>) -> Seq<char> {
    if t.len() == 0 {
        t
    } else {
        upper_of(t[0]) + t.drop_first()
    }
}

/// The tokens joined, each capitalized except the first one when
/// `lower_first` holds.
pub open spec fn joined_camel(tokens: Seq<Seq<char>>, lower_first: bool) -> Seq<char>
    decreases tokens.len(),
{
    if tokens.len() == 0 {
        Seq::empty()
    } else {
        joined_camel(tokens.drop_last(), lower_first) + if lower_first && tokens.len() == 1 {
            tokens.last()
        } else {
            capitalized(tokens.last())
        }
    }
}

/// The camel form of `s`: lower-cased, split at underscores, and joined
/// again with capitals.
pub open spec fn camel_of(s: Seq<char>, lower_first: bool) -> Seq<char> {
    joined_camel(split_on(lower_of(s), '_'), lower_first)
}

/// The rendering `c` of the name given by `singular` and `plural`.
pub open spec fn derived(singular: Seq<char>, plural: Seq<char>, c: NamingCase) -> Seq<char> {
    let p = resolved_plural(singular, plural);
    match c {
        NamingCase::SingularSnake => lower_of(singular),
        NamingCase::PluralSnake => lower_of(p),
        NamingCase::SingularKebab => kebab_of(singular),
        NamingCase::PluralKebab => kebab_of(p),
        NamingCase::SingularLowerCamel => camel_of(singular, true),
        NamingCase::PluralLowerCamel => camel_of(p, true),
        NamingCase::SingularUpperCamel => camel_of(singular, false),
        NamingCase::PluralUpperCamel => camel_of(p, false),
    }
}

/// A name in all its renderings.
#[derive(Clone, Debug)]
pub struct Naming {
    pub singular_snake: String,
    pub plural_snake: String,
    pub singular_kebab: String,
    pub plural_kebab: String,
    pub singular_lower_camel: String,
    pub plural_lower_camel: String,
    pub singular_upper_camel: String,
    pub plural_upper_camel: String,
}

impl Naming {
    /// The text of the rendering `c`.
    pub open spec fn variant(&self, c: NamingCase) -> Seq<char> {
        match c {
            NamingCase::SingularSnake => self.singular_snake@,
            NamingCase::PluralSnake => self.plural_snake@,
            NamingCase::SingularKebab => self.singular_kebab@,
            NamingCase::PluralKebab => self.plural_kebab@,
            NamingCase::SingularLowerCamel => self.singular_lower_camel@,
            NamingCase::PluralLowerCamel => self.plural_lower_camel@,
            NamingCase::SingularUpperCamel => self.singular_upper_camel@,
            NamingCase::PluralUpperCamel => self.plural_upper_camel@,
        }
    }

    /// Whether every rendering is the one derived from `singular` and `plural`.
    pub open spec fn derived_from(&self, singular: Seq<char>, plural: Seq<char>) -> bool {
        forall|c: NamingCase| #[trigger] self.variant(c) == derived(singular, plural, c)
    }

    /// The number of underscore-separated tokens of the singular snake form.
    pub open spec fn token_count(&self) -> nat {
        split_on(self.singular_snake@, '_').len()
    }

    /// Derives all renderings of a name; `plural` may be `DEFAULT_PLURAL`.
    pub fn new(singular_name: String, plural_name: String) -> (r: Naming)
        ensures
            r.derived_from(singular_name@, plural_name@),
    {
        let marker = String::from_str(DEFAULT_PLURAL);
        let plural: &String = if plural_name == marker {
            &singular_name
        } else {
            &plural_name
        };
        let under = vec!['_'];
        let hyphen = vec!['-'];
        let r = Naming {
            singular_snake: lowercase(singular_name.as_str()),
            plural_snake: lowercase(plural.as_str()),
            singular_kebab: string_of(
                &replace_chars(&chars_of(singular_name.as_str()), &under, &hyphen),
            ),
            plural_kebab: string_of(&replace_chars(&chars_of(plural.as_str()), &under, &hyphen)),
            singular_lower_camel: to_camel_case(singular_name.as_str(), true),
            plural_lower_camel: to_camel_case(plural.as_str(), true),
            singular_upper_camel: to_camel_case(singular_name.as_str(), false),
            plural_upper_camel: to_camel_case(plural.as_str(), false),
        };
        assert(plural@ == resolved_plural(singular_name@, plural_name@));
        assert(under@ =~= seq!['_']);
        assert(hyphen@ =~= seq!['-']);
        r
    }

    /// The text of one rendering.
    pub fn case(&self, case: NamingCase) -> (r: &str)
        ensures
            r@ == self.variant(case),
    {
        match case {
            NamingCase::SingularSnake => self.singular_snake.as_str(),
            NamingCase::PluralSnake => self.plural_snake.as_str(),
            NamingCase::SingularKebab => self.singular_kebab.as_str(),
            NamingCase::PluralKebab => self.plural_kebab.as_str(),
            NamingCase::SingularLowerCamel => self.singular_lower_camel.as_str(),
            NamingCase::PluralLowerCamel => self.plural_lower_camel.as_str(),
            NamingCase::SingularUpperCamel => self.singular_upper_camel.as_str(),
            NamingCase::PluralUpperCamel => self.plural_upper_camel.as_str(),
        }
    }

    /// The number of underscore-separated tokens of the singular snake form.
    pub fn count(&self) -> (r: usize)
        ensures
            r == self.token_count(),
    {
        split_chars(&chars_of(self.singular_snake.as_str()), '_').len()
    }
}

fn capitalize_chars(t: &Vec<char>) -> (r: Vec<char>)
    ensures
        r@ == capitalized(t@),
{
    if t.len() == 0 {
        return Vec::new();
    }
    let mut r = uppercase_char(t[0]);
    let mut i: usize = 1;
    let ghost head = r@;
    while i < t.len()
        invariant
            1 <= i <= t@.len(),
            r@ == head + t@.subrange(1, i as int),
        decreases t@.len() - i,
    {
        r.push(t[i]);
        i = i + 1;
        assert(r@ =~= head + t@.subrange(1, i as int));
    }
    assert(t@.subrange(1, i as int) =~= t@.drop_first());
    r
}

/// The string with its first character in upper case.
pub fn capitalize(s: &str) -> (r: String)
    ensures
        r@ == capitalized(s@),
{
    string_of(&capitalize_chars(&chars_of(s)))
}

/// The camel form of `s`; the first token stays lower case when
/// `to_lower` holds.
pub fn to_camel_case(s: &str, to_lower: bool) -> (r: String)
    ensures
        r@ == camel_of(s@, to_lower),
{
    let lower = lowercase(s);
    camel_of_lowered(lower.as_str(), to_lower)
}

/// Joins the underscore-separated tokens of an already lower-cased string,
/// capitalizing each token except the first one when `to_lower` holds.
pub fn camel_of_lowered(lower: &str, to_lower: bool) -> (r: String)
    ensures
        r@ == joined_camel(split_on(lower@, '_'), to_lower),
{
    let tokens = split_chars(&chars_of(lower), '_');
    let ghost all = views(tokens@);
    let mut out: Vec<char> = Vec::new();
    let mut i: usize = 0;
    assert(all.subrange(0, 0) =~= Seq::<Seq<char>>::empty());
    while i < tokens.len()
        invariant
            i <= tokens@.len(),
            all == views(tokens@),
            all.len() == tokens@.len(),
            out@ == joined_camel(all.subrange(0, i as int), to_lower),
        decreases tokens@.len() - i,
    {
        let ghost prev = all.subrange(0, i as int);
        assert(all.subrange(0, i + 1).drop_last() =~= prev);
        assert(all.subrange(0, i + 1).last() == tokens@[i as int]@);
        let piece = if to_lower && i == 0 {
            tokens[i].clone()
        } else {
            capitalize_chars(&tokens[i])
        };
        push_all(&mut out, &piece);
        i = i + 1;
    }
    assert(all.subrange(0, i as int) =~= all);
    string_of(&out)
}

/// With the default plural marker, each plural rendering of a name is its
/// singular rendering; in particular the two snake forms agree.
pub proof fn lemma_default_plural(singular: Seq<char>, n: Naming)
    requires
        n.derived_from(singular, DEFAULT_PLURAL@),
    ensures
        n.plural_snake@ == n.singular_snake@,
        n.plural_kebab@ == n.singular_kebab@,
        n.plural_lower_camel@ == n.singular_lower_camel@,
        n.plural_upper_camel@ == n.singular_upper_camel@,
{
    assert(n.variant(NamingCase::PluralSnake) == n.variant(NamingCase::SingularSnake));
    assert(n.variant(NamingCase::PluralKebab) == n.variant(NamingCase::SingularKebab));
    assert(n.variant(NamingCase::PluralLowerCamel) == n.variant(NamingCase::SingularLowerCamel));
    assert(n.variant(NamingCase::PluralUpperCamel) == n.variant(NamingCase::SingularUpperCamel));
}

/// Deriving a name again from its own singular snake form gives back the
/// same camel forms, wherever lower-casing that snake form once more leaves
/// it as it is.
pub proof fn lemma_camel_from_snake(
    singular: Seq<char>,
    plural: Seq<char>,
    n: Naming,
    again_plural: Seq<char>,
    again: Naming,
)
    requires
        n.derived_from(singular, plural),
        again.derived_from(n.singular_snake@, again_plural),
        lower_of(n.singular_snake@) == n.singular_snake@,
    ensures
        again.singular_upper_camel@ == n.singular_upper_camel@,
        again.singular_lower_camel@ == n.singular_lower_camel@,
{
    assert(n.variant(NamingCase::SingularSnake) == lower_of(singular));
    assert(again.variant(NamingCase::SingularUpperCamel) == camel_of(n.singular_snake@, false));
    assert(n.variant(NamingCase::SingularUpperCamel) == camel_of(singular, false));
    assert(again.variant(NamingCase::SingularLowerCamel) == camel_of(n.singular_snake@, true));
    assert(n.variant(NamingCase::SingularLowerCamel) == camel_of(singular, true));
}

} // verus!
