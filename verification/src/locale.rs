//! The request locale: how an `Accept-Language` value is reduced to one of the two
//! supported locales, the store that holds the current one, and the language the
//! LLM prompts ask for.
use vstd::prelude::*;
use vstd::string::*;
use crate::text::{chars_of, str_to_lowercase, str_trim, spec_to_lowercase, trim_seq};

verus! {

/// A character that ends the primary language tag (`zh-CN`, `en_US`, `en,zh`).
pub open spec fn is_tag_sep(c: char) -> bool {
    c == '-' || c == '_' || c == ','
}

/// Position of the first tag separator, or the length when there is none.
pub open spec fn sep_index(s: Seq<char>) -> nat
    decreases s.len(),
{
    if s.len() == 0 || is_tag_sep(s[0]) {
        0
    } else {
        1 + sep_index(s.drop_first())
    }
}

/// The primary language tag: everything before the first separator.
pub open spec fn primary_tag(s: Seq<char>) -> Seq<char> {
    s.subrange(0, sep_index(s) as int)
}

/// Whether a tag starts with the two characters `a`, `b`.
pub open spec fn tag_starts(p: Seq<char>, a: char, b: char) -> bool {
    p.len() >= 2 && p[0] == a && p[1] == b
}

/// The supported locale a header value maps to: trimmed and lower-cased, the primary
/// tag decides; anything that is neither Chinese nor English falls back to `"zh"`.
pub open spec fn spec_normalize_locale(s: Seq<char>) -> Seq<char> {
    let p = primary_tag(spec_to_lowercase(trim_seq(s)));
    if tag_starts(p, 'z', 'h') {
        "zh"@
    } else if tag_starts(p, 'e', 'n') {
        "en"@
    } else {
        "zh"@
    }
}

/// One of the two supported locales.
pub open spec fn is_supported_locale(s: Seq<char>) -> bool {
    s == "zh"@ || s == "en"@
}

proof fn lemma_sep_index(s: Seq<char>, i: int)
    requires
        0 <= i <= s.len(),
        forall|j: int| 0 <= j < i ==> !is_tag_sep(#[trigger] s[j]),
        i == s.len() || is_tag_sep(s[i]),
    ensures
        sep_index(s) == i,
    decreases i,
{
    if i > 0 {
        let t = s.drop_first();
        assert forall|j: int| 0 <= j < i - 1 implies !is_tag_sep(#[trigger] t[j]) by {
            assert(t[j] == s[j + 1]);
        }
        if i < s.len() {
            assert(t[i - 1] == s[i]);
        }
        lemma_sep_index(t, i - 1);
        assert(!is_tag_sep(s[0]));
    }
}

/// Reduce a locale string to a supported locale (`"zh"` or `"en"`).
/// Accepts `zh`, `zh-CN`, `zh_CN`, `en`, `en-US`, `en_US` and the like.
pub fn normalize_locale(locale: &str) -> (r: String)
    ensures
        r@ == spec_normalize_locale(locale@),
        is_supported_locale(r@),
{
    let t = str_trim(locale);
    let low = str_to_lowercase(t);
    let cs = chars_of(low.as_str());
    let mut i: usize = 0;
    while i < cs.len() && !(cs[i] == '-' || cs[i] == '_' || cs[i] == ',')
        invariant
            i <= cs.len(),
            forall|j: int| 0 <= j < i ==> !is_tag_sep(#[trigger] cs@[j]),
        decreases cs.len() - i,
    {
        i = i + 1;
    }
    proof {
        lemma_sep_index(cs@, i as int);
    }
    let ghost p = primary_tag(cs@);
    assert(p.len() == i);
    assert(i >= 2 ==> p[0] == cs@[0] && p[1] == cs@[1]);
    if i >= 2 && cs[0] == 'z' && cs[1] == 'h' {
        String::from_str("zh")
    } else if i >= 2 && cs[0] == 'e' && cs[1] == 'n' {
        String::from_str("en")
    } else {
        String::from_str("zh")
    }
}

/// The locale named by an `Accept-Language` header value; `"zh"` when there is none.
pub fn extract_locale_from_header(header_value: Option<&str>) -> (r: String)
    ensures
        r@ == match header_value {
            Some(v) => spec_normalize_locale(v@),
            None => "zh"@,
        },
        is_supported_locale(r@),
{
    match header_value {
        Some(value) => normalize_locale(value),
        None => String::from_str("zh"),
    }
}

/// The current locale of a request context. It always holds a supported locale and
/// starts as `"zh"`.
pub struct LocaleStore {
    current: String,
}

impl LocaleStore {
    #[verifier::type_invariant]
    spec fn holds_supported(self) -> bool {
        is_supported_locale(self.current@)
    }

    /// The locale held.
    pub closed spec fn locale(self) -> Seq<char> {
        self.current@
    }

    /// A store holding the default locale `"zh"`.
    pub fn new() -> (s: Self)
        ensures
            s.locale() == "zh"@,
    {
        LocaleStore { current: String::from_str("zh") }
    }
}

impl Default for LocaleStore {
    fn default() -> (s: Self)
        ensures
            s.locale() == "zh"@,
    {
        LocaleStore::new()
    }
}

/// Set the current locale from any locale string; it is normalized first.
pub fn set_locale(store: &mut LocaleStore, locale: &str)
    ensures
        final(store).locale() == spec_normalize_locale(locale@),
{
    let l = normalize_locale(locale);
    store.current = l;
}

/// The current locale; always `"zh"` or `"en"`.
pub fn get_locale(store: &LocaleStore) -> (r: String)
    ensures
        r@ == store.locale(),
        is_supported_locale(r@),
{
    proof {
        use_type_invariant(store);
    }
    store.current.clone()
}

/// The language the LLM is asked to answer in: `"en"` for the English locale, `"zh"`
/// for any other.
pub open spec fn spec_llm_language(locale: Seq<char>) -> Seq<char> {
    if locale == "en"@ {
        "en"@
    } else {
        "zh"@
    }
}

/// The language tag used in LLM prompts for the current locale.
pub fn current_llm_language(store: &LocaleStore) -> (r: String)
    ensures
        r@ == spec_llm_language(store.locale()),
{
    let locale = get_locale(store);
    let en = String::from_str("en");
    if locale == en {
        en
    } else {
        String::from_str("zh")
    }
}

/// The prompt section that asks for answers in English.
pub open spec fn english_requirement() -> Seq<char> {
    "\n\n## Language Requirement\nPlease respond **strictly in English**. Do not use Chinese in any part of the answer.\n"@
}

/// The prompt section that asks for answers in Simplified Chinese.
pub open spec fn chinese_requirement() -> Seq<char> {
    "\n\n## 语言要求\n请全程使用**简体中文**回答，不要在任何部分使用英文。\n"@
}

/// The prompt section that constrains the answer language to the current locale's.
pub fn build_language_prompt_section(store: &LocaleStore) -> (r: String)
    ensures
        r@ == (if spec_llm_language(store.locale()) == "en"@ {
            english_requirement()
        } else {
            chinese_requirement()
        }),
{
    let lang = current_llm_language(store);
    if lang == String::from_str("en") {
        String::from_str(
            "\n\n## Language Requirement\nPlease respond **strictly in English**. Do not use Chinese in any part of the answer.\n",
        )
    } else {
        String::from_str("\n\n## 语言要求\n请全程使用**简体中文**回答，不要在任何部分使用英文。\n")
    }
}

} // verus!
