//! The locales that Discord accepts for translations.

use vstd::prelude::*;

use crate::text::str_eq;

verus! {

/// A Discord locale.
#[derive(Clone, Copy, Debug, PartialEq, Eq, Structural, Hash)]
pub enum Locale {
    Danish,
    German,
    EnglishUK,
    EnglishUS,
    Spanish,
    French,
    Croatian,
    Italian,
    Lithuanian,
    Hungarian,
    Dutch,
    Norwegian,
    Polish,
    PortugueseBrazilian,
    RomanianRomania,
    Finnish,
    Swedish,
    Vietnamese,
    Turkish,
    Czech,
    Greek,
    Bulgarian,
    Russian,
    Ukrainian,
    Hindi,
    Thai,
    ChineseChina,
    Japanese,
    ChineseTaiwan,
    Korean,
}

impl View for Locale {
    type V = Locale;

    open spec fn view(&self) -> Locale {
        *self
    }
}

/// The error for a string that names no locale.
#[derive(Clone, Copy, Debug, Default, PartialEq, Eq)]
pub struct InvalidLocale;

/// The code by which Discord names a locale.
pub open spec fn locale_code(locale: Locale) -> Seq<char> {
    match locale {
        Locale::Danish => seq!['d', 'a'],
        Locale::German => seq!['d', 'e'],
        Locale::EnglishUK => seq!['e', 'n', '-', 'G', 'B'],
        Locale::EnglishUS => seq!['e', 'n', '-', 'U', 'S'],
        Locale::Spanish => seq!['e', 's', '-', 'E', 'S'],
        Locale::French => seq!['f', 'r'],
        Locale::Croatian => seq!['h', 'r'],
        Locale::Italian => seq!['i', 't'],
        Locale::Lithuanian => seq!['l', 't'],
        Locale::Hungarian => seq!['h', 'u'],
        Locale::Dutch => seq!['n', 'l'],
        Locale::Norwegian => seq!['n', 'o'],
        Locale::Polish => seq!['p', 'l'],
        Locale::PortugueseBrazilian => seq!['p', 't', '-', 'B', 'R'],
        Locale::RomanianRomania => seq!['r', 'o'],
        Locale::Finnish => seq!['f', 'i'],
        Locale::Swedish => seq!['s', 'v', '-', 'S', 'E'],
        Locale::Vietnamese => seq!['v', 'i'],
        Locale::Turkish => seq!['t', 'r'],
        Locale::Czech => seq!['c', 's'],
        Locale::Greek => seq!['e', 'l'],
        Locale::Bulgarian => seq!['b', 'g'],
        Locale::Russian => seq!['r', 'u'],
        Locale::Ukrainian => seq!['u', 'k'],
        Locale::Hindi => seq!['h', 'i'],
        Locale::Thai => seq!['t', 'h'],
        Locale::ChineseChina => seq!['z', 'h', '-', 'C', 'N'],
        Locale::Japanese => seq!['j', 'a'],
        Locale::ChineseTaiwan => seq!['z', 'h', '-', 'T', 'W'],
        Locale::Korean => seq!['k', 'o'],
    }
}

/// Distinct locales have distinct codes, so a code names at most one locale.
pub proof fn lemma_locale_code_injective(a: Locale, b: Locale)
    ensures
        locale_code(a) == locale_code(b) ==> a == b,
{
    let (x, y) = (locale_code(a), locale_code(b));
    if x == y {
        assert(x.len() == y.len());
        assert(x[0] == y[0]);
        assert(x[1] == y[1]);
        if x.len() == 5 {
            assert(x[3] == y[3]);
        }
    }
}

impl Locale {
    /// The locale used where no translation is asked for.
    pub fn default_locale() -> (r: Locale)
        ensures
            r == Locale::EnglishUS,
    {
        Locale::EnglishUS
    }

    /// The code of this locale, such as `en-US`.
    pub fn code(&self) -> (r: &'static str)
        ensures
            r@ == locale_code(*self),
    {
        match self {
            Locale::Danish => { proof { reveal_strlit("da"); } "da" },
            Locale::German => { proof { reveal_strlit("de"); } "de" },
            Locale::EnglishUK => { proof { reveal_strlit("en-GB"); } "en-GB" },
            Locale::EnglishUS => { proof { reveal_strlit("en-US"); } "en-US" },
            Locale::Spanish => { proof { reveal_strlit("es-ES"); } "es-ES" },
            Locale::French => { proof { reveal_strlit("fr"); } "fr" },
            Locale::Croatian => { proof { reveal_strlit("hr"); } "hr" },
            Locale::Italian => { proof { reveal_strlit("it"); } "it" },
            Locale::Lithuanian => { proof { reveal_strlit("lt"); } "lt" },
            Locale::Hungarian => { proof { reveal_strlit("hu"); } "hu" },
            Locale::Dutch => { proof { reveal_strlit("nl"); } "nl" },
            Locale::Norwegian => { proof { reveal_strlit("no"); } "no" },
            Locale::Polish => { proof { reveal_strlit("pl"); } "pl" },
            Locale::PortugueseBrazilian => { proof { reveal_strlit("pt-BR"); } "pt-BR" },
            Locale::RomanianRomania => { proof { reveal_strlit("ro"); } "ro" },
            Locale::Finnish => { proof { reveal_strlit("fi"); } "fi" },
            Locale::Swedish => { proof { reveal_strlit("sv-SE"); } "sv-SE" },
            Locale::Vietnamese => { proof { reveal_strlit("vi"); } "vi" },
            Locale::Turkish => { proof { reveal_strlit("tr"); } "tr" },
            Locale::Czech => { proof { reveal_strlit("cs"); } "cs" },
            Locale::Greek => { proof { reveal_strlit("el"); } "el" },
            Locale::Bulgarian => { proof { reveal_strlit("bg"); } "bg" },
            Locale::Russian => { proof { reveal_strlit("ru"); } "ru" },
            Locale::Ukrainian => { proof { reveal_strlit("uk"); } "uk" },
            Locale::Hindi => { proof { reveal_strlit("hi"); } "hi" },
            Locale::Thai => { proof { reveal_strlit("th"); } "th" },
            Locale::ChineseChina => { proof { reveal_strlit("zh-CN"); } "zh-CN" },
            Locale::Japanese => { proof { reveal_strlit("ja"); } "ja" },
            Locale::ChineseTaiwan => { proof { reveal_strlit("zh-TW"); } "zh-TW" },
            Locale::Korean => { proof { reveal_strlit("ko"); } "ko" },
        }
    }

    /// All locales, in the order of their declaration, each once.
    pub fn all() -> (r: Vec<Locale>)
        ensures
            r@.len() == 30,
            forall|i: int, j: int| 0 <= i < j < r@.len() ==> r@[i] != r@[j],
            forall|l: Locale| r@.contains(l),
    {
        let r = vec![
            Locale::Danish, Locale::German, Locale::EnglishUK, Locale::EnglishUS,
            Locale::Spanish, Locale::French, Locale::Croatian, Locale::Italian,
            Locale::Lithuanian, Locale::Hungarian, Locale::Dutch, Locale::Norwegian,
            Locale::Polish, Locale::PortugueseBrazilian, Locale::RomanianRomania,
            Locale::Finnish, Locale::Swedish, Locale::Vietnamese, Locale::Turkish,
            Locale::Czech, Locale::Greek, Locale::Bulgarian, Locale::Russian,
            Locale::Ukrainian, Locale::Hindi, Locale::Thai, Locale::ChineseChina,
            Locale::Japanese, Locale::ChineseTaiwan, Locale::Korean,
        ];
        assert forall|l: Locale| r@.contains(l) by {
            match l {
                Locale::Danish => assert(r@[0] == l),
                Locale::German => assert(r@[1] == l),
                Locale::EnglishUK => assert(r@[2] == l),
                Locale::EnglishUS => assert(r@[3] == l),
                Locale::Spanish => assert(r@[4] == l),
                Locale::French => assert(r@[5] == l),
                Locale::Croatian => assert(r@[6] == l),
                Locale::Italian => assert(r@[7] == l),
                Locale::Lithuanian => assert(r@[8] == l),
                Locale::Hungarian => assert(r@[9] == l),
                Locale::Dutch => assert(r@[10] == l),
                Locale::Norwegian => assert(r@[11] == l),
                Locale::Polish => assert(r@[12] == l),
                Locale::PortugueseBrazilian => assert(r@[13] == l),
                Locale::RomanianRomania => assert(r@[14] == l),
                Locale::Finnish => assert(r@[15] == l),
                Locale::Swedish => assert(r@[16] == l),
                Locale::Vietnamese => assert(r@[17] == l),
                Locale::Turkish => assert(r@[18] == l),
                Locale::Czech => assert(r@[19] == l),
                Locale::Greek => assert(r@[20] == l),
                Locale::Bulgarian => assert(r@[21] == l),
                Locale::Russian => assert(r@[22] == l),
                Locale::Ukrainian => assert(r@[23] == l),
                Locale::Hindi => assert(r@[24] == l),
                Locale::Thai => assert(r@[25] == l),
                Locale::ChineseChina => assert(r@[26] == l),
                Locale::Japanese => assert(r@[27] == l),
                Locale::ChineseTaiwan => assert(r@[28] == l),
                Locale::Korean => assert(r@[29] == l),
            }
        }
        r
    }

    /// The locale whose code is `value`.
    pub fn from_code(value: &str) -> (r: Result<Locale, InvalidLocale>)
        ensures
            match r {
                Ok(l) => locale_code(l) == value@,
                Err(_) => forall|l: Locale| locale_code(l) != value@,
            },
    {
        let all = Locale::all();
        let mut i: usize = 0;
        while i < all.len()
            invariant
                i <= all.len(),
                forall|l: Locale| all@.contains(l),
                forall|j: int| 0 <= j < i ==> locale_code(#[trigger] all@[j]) != value@,
            decreases all.len() - i,
        {
            if str_eq(all[i].code(), value) {
                return Ok(all[i]);
            }
            i += 1;
        }
        assert forall|l: Locale| locale_code(l) != value@ by {
            assert(all@.contains(l));
            let j = choose|j: int| 0 <= j < all@.len() && all@[j] == l;
            assert(locale_code(all@[j]) != value@);
        }
        Err(InvalidLocale)
    }
}

} // verus!
