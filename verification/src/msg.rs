//! The message catalogue: texts under a key and a language, and the current language.
use crate::text::{lit, same};
use vstd::prelude::*;

verus! {

/// One text of the catalogue.
pub struct Message {
    pub key: String,
    pub lang: String,
    pub text: String,
}

/// The current language and the texts registered so far. Of two texts under one key and
/// language the first counts; registering again replaces it.
pub struct MsgState {
    pub lang: String,
    pub texts: Vec<Message>,
}

/// What a `MsgState` holds.
pub struct MsgV {
    pub lang: Seq<char>,
    pub dict: Map<(Seq<char>, Seq<char>), Seq<char>>,
}

/// The position of the text under `key` and `lang`, from position `i` on.
pub open spec fn msg_pos(texts: Seq<Message>, key: Seq<char>, lang: Seq<char>, i: int) -> Option<
    int,
>
    decreases texts.len() - i,
{
    if i < 0 || i >= texts.len() {
        None
    } else if texts[i].key@ == key && texts[i].lang@ == lang {
        Some(i)
    } else {
        msg_pos(texts, key, lang, i + 1)
    }
}

proof fn lemma_msg_pos(texts: Seq<Message>, key: Seq<char>, lang: Seq<char>, i: int)
    requires
        0 <= i,
    ensures
        match msg_pos(texts, key, lang, i) {
            Some(k) => i <= k < texts.len() && texts[k].key@ == key && texts[k].lang@ == lang
                && forall|j: int|
                i <= j < k ==> !(texts[j].key@ == key && texts[j].lang@ == lang),
            None => forall|j: int|
                i <= j < texts.len() ==> !(texts[j].key@ == key && texts[j].lang@ == lang),
        },
    decreases texts.len() - i,
{
    if i < texts.len() && !(texts[i].key@ == key && texts[i].lang@ == lang) {
        lemma_msg_pos(texts, key, lang, i + 1);
    }
}

pub open spec fn msg_dict(texts: Seq<Message>) -> Map<(Seq<char>, Seq<char>), Seq<char>> {
    Map::new(
        |k: (Seq<char>, Seq<char>)| msg_pos(texts, k.0, k.1, 0) is Some,
        |k: (Seq<char>, Seq<char>)| texts[msg_pos(texts, k.0, k.1, 0)->0].text@,
    )
}

impl View for MsgState {
    type V = MsgV;

    open spec fn view(&self) -> MsgV {
        MsgV { lang: self.lang@, dict: msg_dict(self.texts@) }
    }
}

/// What the catalogue answers for a key: the text of the current language, else the
/// Chinese one, else the key.
pub open spec fn msg_t(m: MsgV, key: Seq<char>) -> Seq<char> {
    if m.dict.dom().contains((key, m.lang)) {
        m.dict[(key, m.lang)]
    } else if m.lang != "zh"@ && m.dict.dom().contains((key, "zh"@)) {
        m.dict[(key, "zh"@)]
    } else {
        key
    }
}

/// What the catalogue answers for a key in one language: its text, else nothing.
pub open spec fn msg_t_lang(m: MsgV, key: Seq<char>, lang: Seq<char>) -> Seq<char> {
    if m.dict.dom().contains((key, lang)) {
        m.dict[(key, lang)]
    } else {
        Seq::empty()
    }
}

pub open spec fn msg_set_lang(m: MsgV, lang: Seq<char>) -> MsgV {
    MsgV { lang, dict: m.dict }
}

pub open spec fn msg_register(m: MsgV, key: Seq<char>, lang: Seq<char>, text: Seq<char>) -> MsgV {
    MsgV { lang: m.lang, dict: m.dict.insert((key, lang), text) }
}

impl Default for MsgState {
    /// An empty catalogue in Chinese.
    fn default() -> (m: MsgState)
        ensures
            m@.lang == "zh"@,
            m@.dict == Map::<(Seq<char>, Seq<char>), Seq<char>>::empty(),
    {
        let m = MsgState { lang: lit("zh"), texts: Vec::new() };
        assert(m@.dict =~= Map::<(Seq<char>, Seq<char>), Seq<char>>::empty());
        m
    }
}

impl MsgState {
    /// Makes `lang` the current language.
    pub fn tie_msg_set_lang(&mut self, lang: &str)
        ensures
            final(self)@ == msg_set_lang(old(self)@, lang@),
    {
        self.lang = lit(lang);
    }

    /// The current language.
    pub fn tie_msg_get_lang(&self) -> (r: String)
        ensures
            r@ == self@.lang,
    {
        self.lang.clone()
    }

    fn lookup(&self, key: &str, lang: &str) -> (r: Option<String>)
        ensures
            match r {
                Some(t) => self@.dict.dom().contains((key@, lang@)) && self@.dict[(key@, lang@)]
                    == t@,
                None => !self@.dict.dom().contains((key@, lang@)),
            },
    {
        for i in 0..self.texts.len()
            invariant
                msg_pos(self.texts@, key@, lang@, 0) == msg_pos(
                    self.texts@,
                    key@,
                    lang@,
                    i as int,
                ),
        {
            if same(self.texts[i].key.as_str(), key) && same(self.texts[i].lang.as_str(), lang) {
                return Some(self.texts[i].text.clone());
            }
        }
        None
    }

    /// Puts `text` under `key` and `lang`, in place of the text that was there.
    pub fn tie_msg_register(&mut self, key: &str, lang: &str, text: &str)
        ensures
            final(self)@ == msg_register(old(self)@, key@, lang@, text@),
    {
        let ghost before = self.texts@;
        let n: usize = self.texts.len();
        let mut i: usize = 0;
        while i < n
            invariant
                n == self.texts@.len(),
                i <= n,
                self.texts@ == before,
                self.lang@ == old(self).lang@,
                before == old(self).texts@,
                msg_pos(before, key@, lang@, 0) == msg_pos(before, key@, lang@, i as int),
            decreases n - i,
        {
            if same(self.texts[i].key.as_str(), key) && same(self.texts[i].lang.as_str(), lang) {
                self.texts.set(i, Message { key: lit(key), lang: lit(lang), text: lit(text) });
                proof {
                    lemma_replaced(before, self.texts@, key@, lang@, text@, i as int);
                }
                return ;
            }
            i = i + 1;
        }
        self.texts.push(Message { key: lit(key), lang: lit(lang), text: lit(text) });
        proof {
            lemma_appended(before, self.texts@, key@, lang@, text@);
        }
    }

    /// The text under `key`: in the current language, else in Chinese, else the key.
    pub fn tie_msg_t(&self, key: &str) -> (r: String)
        ensures
            r@ == msg_t(self@, key@),
    {
        match self.lookup(key, self.lang.as_str()) {
            Some(t) => t,
            None => {
                if !same(self.lang.as_str(), "zh") {
                    match self.lookup(key, "zh") {
                        Some(t) => t,
                        None => lit(key),
                    }
                } else {
                    lit(key)
                }
            },
        }
    }

    /// The text under `key` in the language `lang`, or nothing.
    pub fn tie_msg_t_lang(&self, key: &str, lang: &str) -> (r: String)
        ensures
            r@ == msg_t_lang(self@, key@, lang@),
    {
        match self.lookup(key, lang) {
            Some(t) => t,
            None => String::new(),
        }
    }
}

proof fn lemma_replaced(
    before: Seq<Message>,
    after: Seq<Message>,
    key: Seq<char>,
    lang: Seq<char>,
    text: Seq<char>,
    i: int,
)
    requires
        0 <= i < before.len(),
        msg_pos(before, key, lang, 0) == Some(i),
        after.len() == before.len(),
        forall|j: int| 0 <= j < before.len() && j != i ==> after[j] == before[j],
        after[i].key@ == key,
        after[i].lang@ == lang,
        after[i].text@ == text,
    ensures
        msg_dict(after) == msg_dict(before).insert((key, lang), text),
{
    lemma_msg_pos(before, key, lang, 0);
    assert forall|k: Seq<char>, l: Seq<char>| true implies #[trigger] msg_pos(after, k, l, 0)
        == msg_pos(before, k, l, 0) by {
        lemma_msg_pos(before, k, l, 0);
        lemma_msg_pos(after, k, l, 0);
        assert forall|j: int| 0 <= j < before.len() implies (after[j].key@ == k && after[j].lang@
            == l) == (before[j].key@ == k && before[j].lang@ == l) by {}
        match (msg_pos(before, k, l, 0), msg_pos(after, k, l, 0)) {
            (Some(a), Some(b)) => {
                if a < b {
                    assert(after[a].key@ == k && after[a].lang@ == l);
                }
                if b < a {
                    assert(before[b].key@ == k && before[b].lang@ == l);
                }
            },
            (Some(a), None) => {
                assert(after[a].key@ == k && after[a].lang@ == l);
            },
            (None, Some(b)) => {
                assert(before[b].key@ == k && before[b].lang@ == l);
            },
            (None, None) => {},
        }
    }
    let m = msg_dict(before).insert((key, lang), text);
    assert forall|q: (Seq<char>, Seq<char>)| true implies #[trigger] msg_dict(after).dom().contains(
        q,
    ) == m.dom().contains(q) by {
        assert(msg_pos(after, q.0, q.1, 0) == msg_pos(before, q.0, q.1, 0));
    }
    assert forall|q: (Seq<char>, Seq<char>)| #[trigger] msg_dict(after).dom().contains(
        q,
    ) implies msg_dict(after)[q] == m[q] by {
        assert(msg_pos(after, q.0, q.1, 0) == msg_pos(before, q.0, q.1, 0));
        lemma_msg_pos(before, q.0, q.1, 0);
    }
    assert(msg_dict(after) =~= m);
}

proof fn lemma_appended(
    before: Seq<Message>,
    after: Seq<Message>,
    key: Seq<char>,
    lang: Seq<char>,
    text: Seq<char>,
)
    requires
        msg_pos(before, key, lang, 0) is None,
        after.len() == before.len() + 1,
        forall|j: int| 0 <= j < before.len() ==> after[j] == before[j],
        after.last().key@ == key,
        after.last().lang@ == lang,
        after.last().text@ == text,
    ensures
        msg_dict(after) == msg_dict(before).insert((key, lang), text),
{
    let n = before.len() as int;
    assert forall|k: Seq<char>, l: Seq<char>| true implies #[trigger] msg_pos(after, k, l, 0) == (
    match msg_pos(before, k, l, 0) {
        Some(a) => Some(a),
        None => if k == key && l == lang {
            Some(n)
        } else {
            None
        },
    }) by {
        lemma_msg_pos(before, k, l, 0);
        lemma_msg_pos(after, k, l, 0);
        match (msg_pos(before, k, l, 0), msg_pos(after, k, l, 0)) {
            (Some(a), Some(b)) => {
                if a < b {
                    assert(after[a].key@ == k && after[a].lang@ == l);
                }
                if b < a {
                    assert(before[b].key@ == k && before[b].lang@ == l);
                }
            },
            (Some(a), None) => {
                assert(after[a].key@ == k && after[a].lang@ == l);
            },
            (None, Some(b)) => {
                if b < n {
                    assert(before[b].key@ == k && before[b].lang@ == l);
                }
            },
            (None, None) => {
                assert(!(after[n].key@ == k && after[n].lang@ == l));
            },
        }
    }
    lemma_msg_pos(before, key, lang, 0);
    let m = msg_dict(before).insert((key, lang), text);
    assert forall|q: (Seq<char>, Seq<char>)| true implies #[trigger] msg_dict(after).dom().contains(
        q,
    ) == m.dom().contains(q) by {
        assert(msg_pos(after, q.0, q.1, 0) == msg_pos(after, q.0, q.1, 0));
    }
    assert forall|q: (Seq<char>, Seq<char>)| #[trigger] msg_dict(after).dom().contains(
        q,
    ) implies msg_dict(after)[q] == m[q] by {
        assert(msg_pos(after, q.0, q.1, 0) == msg_pos(after, q.0, q.1, 0));
        lemma_msg_pos(before, q.0, q.1, 0);
    }
    assert(msg_dict(after) =~= m);
}

// ---------- laws ----------
/// A registered text is what its language answers with, whatever was registered before.
pub proof fn law_registered_text_is_found(
    m: MsgV,
    key: Seq<char>,
    lang: Seq<char>,
    text: Seq<char>,
)
    ensures
        msg_t_lang(msg_register(m, key, lang, text), key, lang) == text,
        msg_t(msg_set_lang(msg_register(m, key, lang, text), lang), key) == text,
{
}

/// Registering a text leaves the answers for every other key and language as they were.
pub proof fn law_register_touches_one_text(
    m: MsgV,
    key: Seq<char>,
    lang: Seq<char>,
    text: Seq<char>,
    k: Seq<char>,
    l: Seq<char>,
)
    requires
        k != key || l != lang,
    ensures
        msg_t_lang(msg_register(m, key, lang, text), k, l) == msg_t_lang(m, k, l),
{
    assert((k, l) != (key, lang));
}

/// A key without a text in the current language is answered in Chinese where there is a
/// Chinese text, and with the key itself where there is none.
pub proof fn law_fallback_chain(m: MsgV, key: Seq<char>)
    requires
        !m.dict.dom().contains((key, m.lang)),
    ensures
        m.dict.dom().contains((key, "zh"@)) ==> msg_t(m, key) == m.dict[(key, "zh"@)],
        !m.dict.dom().contains((key, "zh"@)) ==> msg_t(m, key) == key,
{
}

} // verus!
