use std::collections::HashMap;

use vstd::prelude::*;
use vstd::std_specs::cmp::PartialEqSpec;

use crate::same::{vec_same, views, SameView};

verus! {

/// The mathematical value of a [`Message`]: its template and its arguments.
pub struct MessageView {
    pub text: Seq<char>,
    pub args: Seq<Seq<char>>,
}

/// A failure description: a template with `{i}` placeholders and the
/// arguments that fill them, by position.
#[derive(Clone, Debug)]
pub struct Message {
    pub text: String,
    pub args: Vec<String>,
}

impl View for Message {
    type V = MessageView;

    open spec fn view(&self) -> MessageView {
        MessageView { text: self.text@, args: self.args@.map_values(|a: String| a@) }
    }
}

/// The value of a decimal digit character.
pub open spec fn digit_value(c: char) -> nat {
    (c as u32 - '0' as u32) as nat
}

/// Whether `c` is a decimal digit.
pub open spec fn is_digit(c: char) -> bool {
    '0' <= c && c <= '9'
}

/// A placeholder key that names an argument: decimal digits without a
/// leading zero (but for `0` itself).
pub open spec fn is_index_key(k: Seq<char>) -> bool {
    &&& k.len() > 0
    &&& forall|i: int| 0 <= i < k.len() ==> is_digit(#[trigger] k[i])
    &&& k.len() > 1 ==> k[0] != '0'
}

/// The number that a string of decimal digits denotes.
pub open spec fn key_value(k: Seq<char>) -> nat
    decreases k.len(),
{
    if k.len() == 0 {
        0
    } else {
        key_value(k.drop_last()) * 10 + digit_value(k.last())
    }
}

/// Whether a placeholder key names one of `n` arguments.
pub open spec fn names_argument(k: Seq<char>, n: nat) -> bool {
    is_index_key(k) && key_value(k) < n
}

/// Whether `t` is plain text and `{key}` placeholders only, reading from the
/// state `key` (`Some` while inside a placeholder): no brace escapes, no
/// format specifications, no stray braces.
pub open spec fn plain_template_from(t: Seq<char>, key: Option<Seq<char>>) -> bool
    decreases t.len(),
{
    if t.len() == 0 {
        key is None
    } else {
        let c = t[0];
        let rest = t.drop_first();
        match key {
            None => if c == '{' {
                plain_template_from(rest, Some(Seq::empty()))
            } else {
                c != '}' && plain_template_from(rest, None)
            },
            Some(k) => if c == '}' {
                plain_template_from(rest, None)
            } else {
                c != '{' && c != ':' && plain_template_from(rest, Some(k.push(c)))
            },
        }
    }
}

/// Whether `t` is plain text and `{key}` placeholders only.
pub open spec fn is_plain_template(t: Seq<char>) -> bool {
    plain_template_from(t, None)
}

/// The placeholder keys of `t` in order, reading from the state `key`.
pub open spec fn keys_from(t: Seq<char>, key: Option<Seq<char>>) -> Seq<Seq<char>>
    decreases t.len(),
{
    if t.len() == 0 {
        Seq::empty()
    } else {
        let c = t[0];
        let rest = t.drop_first();
        match key {
            None => if c == '{' {
                keys_from(rest, Some(Seq::empty()))
            } else {
                keys_from(rest, None)
            },
            Some(k) => if c == '}' {
                seq![k] + keys_from(rest, None)
            } else {
                keys_from(rest, Some(k.push(c)))
            },
        }
    }
}

/// The placeholder keys of `t` in order.
pub open spec fn keys(t: Seq<char>) -> Seq<Seq<char>> {
    keys_from(t, None)
}

/// The text of `t` with each placeholder replaced by the argument it names,
/// reading from the state `key`; `None` where a placeholder names none.
pub open spec fn substitute_from(t: Seq<char>, args: Seq<Seq<char>>, key: Option<Seq<char>>) -> Option<Seq<char>>
    decreases t.len(),
{
    if t.len() == 0 {
        Some(Seq::empty())
    } else {
        let c = t[0];
        let rest = t.drop_first();
        match key {
            None => if c == '{' {
                substitute_from(rest, args, Some(Seq::empty()))
            } else {
                match substitute_from(rest, args, None) {
                    Some(r) => Some(seq![c] + r),
                    None => None,
                }
            },
            Some(k) => if c == '}' {
                if names_argument(k, args.len()) {
                    match substitute_from(rest, args, None) {
                        Some(r) => Some(args[key_value(k) as int] + r),
                        None => None,
                    }
                } else {
                    None
                }
            } else {
                substitute_from(rest, args, Some(k.push(c)))
            },
        }
    }
}

/// The text of `t` with each placeholder replaced by the argument it names.
pub open spec fn substitute(t: Seq<char>, args: Seq<Seq<char>>) -> Option<Seq<char>> {
    substitute_from(t, args, None)
}

/// The outcome of a formatting call, without its error value.
pub open spec fn formatted(r: Option<String>) -> Option<Seq<char>> {
    match r {
        Some(s) => Some(s@),
        None => None,
    }
}

/// Relies on `strfmt::strfmt` with the keys `"0"`, `"1"`, ... bound to the
/// arguments in order. On a template of plain text and `{key}` placeholders
/// it replaces each placeholder by the value of its key, and fails where a
/// key is not in the map.
#[verifier::external_body]
fn strfmt_indexed(text: &str, args: &Vec<String>) -> (r: Option<String>)
    requires
        is_plain_template(text@),
    ensures
        formatted(r) == substitute(text@, args@.map_values(|a: String| a@)),
{
    let mut vars: HashMap<String, &String> = HashMap::new();
    for (i, a) in args.iter().enumerate() {
        vars.insert(i.to_string(), a);
    }
    strfmt::strfmt(text, &vars).ok()
}

/// Whether `t` is plain text and `{key}` placeholders only.
pub fn plain_template(t: &str) -> (r: bool)
    ensures
        r == is_plain_template(t@),
{
    let n = t.unicode_len();
    let ghost s = t@;
    let mut in_key = false;
    let ghost mut key: Option<Seq<char>> = None;
    let mut i: usize = 0;
    assert(s.subrange(0, n as int) =~= s);
    while i < n
        invariant
            n == s.len(),
            s == t@,
            0 <= i <= n,
            in_key == (key is Some),
            is_plain_template(s) == plain_template_from(s.subrange(i as int, n as int), key),
        decreases n - i,
    {
        let c = t.get_char(i);
        assert(s.subrange(i as int, n as int).drop_first() =~= s.subrange(i + 1, n as int));
        assert(s.subrange(i as int, n as int)[0] == c);
        if !in_key {
            if c == '{' {
                in_key = true;
                proof {
                    key = Some(Seq::empty());
                }
            } else if c == '}' {
                return false;
            }
        } else {
            if c == '}' {
                in_key = false;
                proof {
                    key = None;
                }
            } else if c == '{' || c == ':' {
                return false;
            } else {
                proof {
                    key = Some(key.unwrap().push(c));
                }
            }
        }
        i = i + 1;
    }
    assert(s.subrange(n as int, n as int) =~= Seq::<char>::empty());
    !in_key
}

/// The rendered text of `m` given what the formatter made of it: a render
/// that leaves the template unchanged although arguments were supplied is a
/// template/argument mismatch.
pub open spec fn accept_render(m: MessageView, out: Option<Seq<char>>) -> Option<Seq<char>> {
    match out {
        None => None,
        Some(s) => if m.args.len() > 0 && s == m.text {
            None
        } else {
            Some(s)
        },
    }
}

/// The rendered text of `m`, or `None` where rendering faults: a
/// placeholder that is not a bare index of an argument, a stray or escaped
/// brace, or arguments that change nothing.
pub open spec fn rendered(m: MessageView) -> Option<Seq<char>> {
    if is_plain_template(m.text) {
        accept_render(m, substitute(m.text, m.args))
    } else {
        None
    }
}

/// A message that renders: a plain template whose placeholders all name an
/// argument, and which changes under substitution when it has arguments.
pub open spec fn well_formed(m: MessageView) -> bool {
    &&& is_plain_template(m.text)
    &&& substitute(m.text, m.args) is Some
    &&& m.args.len() > 0 ==> substitute(m.text, m.args) != Some(m.text)
}

impl Message {
    /// Applies the mismatch rule to the output `out` of the formatter.
    pub fn accept(&self, out: Option<String>) -> (r: Option<String>)
        ensures
            formatted(r) == accept_render(self@, formatted(out)),
    {
        match out {
            None => None,
            Some(s) => {
                if self.args.len() > 0 && s == self.text {
                    None
                } else {
                    Some(s)
                }
            },
        }
    }

    /// Renders the message: each placeholder replaced by its argument;
    /// `None` where the template and the arguments do not fit together.
    pub fn render(&self) -> (r: Option<String>)
        ensures
            formatted(r) == rendered(self@),
            !is_plain_template(self@.text) ==> r is None,
    {
        if !plain_template(self.text.as_str()) {
            return None;
        }
        let out = strfmt_indexed(self.text.as_str(), &self.args);
        self.accept(out)
    }

    /// The rendered text of a well-formed message.
    pub fn to_string(&self) -> (r: String)
        requires
            well_formed(self@),
        ensures
            Some(r@) == substitute(self@.text, self@.args),
    {
        match self.render() {
            Some(s) => s,
            None => String::new(),
        }
    }
}

impl SameView for Message {
    fn same(&self, other: &Message) -> (r: bool) {
        proof {
            assert(views(self.args@) == self@.args);
            assert(views(other.args@) == other@.args);
        }
        self.text.same(&other.text) && vec_same(&self.args, &other.args)
    }
}

impl PartialEq for Message {
    fn eq(&self, other: &Message) -> (r: bool)
        ensures
            r == (self@ == other@),
    {
        self.same(other)
    }
}

impl vstd::std_specs::cmp::PartialEqSpecImpl for Message {
    open spec fn obeys_eq_spec() -> bool {
        true
    }

    open spec fn eq_spec(&self, other: &Message) -> bool {
        self@ == other@
    }
}

/// Substitution in a plain template succeeds exactly when each of its keys
/// names an argument.
pub proof fn lemma_substitute_some(t: Seq<char>, args: Seq<Seq<char>>, key: Option<Seq<char>>)
    requires
        plain_template_from(t, key),
    ensures
        substitute_from(t, args, key) is Some <==> forall|i: int|
            0 <= i < keys_from(t, key).len() ==> names_argument(
                #[trigger] keys_from(t, key)[i],
                args.len(),
            ),
    decreases t.len(),
{
    if t.len() > 0 {
        let c = t[0];
        let rest = t.drop_first();
        match key {
            None => if c == '{' {
                lemma_substitute_some(rest, args, Some(Seq::empty()));
                assert(keys_from(t, key) == keys_from(rest, Some(Seq::<char>::empty())));
                assert(substitute_from(t, args, key) == substitute_from(rest, args, Some(Seq::<char>::empty())));
            } else {
                lemma_substitute_some(rest, args, None);
                assert(keys_from(t, key) == keys_from(rest, None));
            },
            Some(k) => if c == '}' {
                lemma_substitute_some(rest, args, None);
                let ks = keys_from(t, key);
                let tail = keys_from(rest, None);
                let n = args.len();
                assert(ks == seq![k] + tail);
                assert(ks[0] == k);
                if substitute_from(t, args, key) is Some {
                    assert forall|i: int| 0 <= i < ks.len() implies names_argument(#[trigger] ks[i], n) by {
                        if i > 0 {
                            assert(ks[i] == tail[i - 1]);
                        }
                    }
                }
                if forall|i: int| 0 <= i < ks.len() ==> names_argument(#[trigger] ks[i], n) {
                    assert(names_argument(ks[0], n));
                    assert forall|i: int| 0 <= i < tail.len() implies names_argument(#[trigger] tail[i], n) by {
                        assert(ks[i + 1] == tail[i]);
                    }
                }
            } else {
                lemma_substitute_some(rest, args, Some(k.push(c)));
                assert(keys_from(t, key) == keys_from(rest, Some(k.push(c))));
            },
        }
    }
}

/// A plain template that is inside a placeholder yields at least one key.
pub proof fn lemma_open_placeholder_has_key(t: Seq<char>, k: Seq<char>)
    requires
        plain_template_from(t, Some(k)),
    ensures
        keys_from(t, Some(k)).len() > 0,
    decreases t.len(),
{
    if t.len() > 0 && t[0] != '}' {
        lemma_open_placeholder_has_key(t.drop_first(), k.push(t[0]));
    }
}

/// A plain template without placeholders substitutes to itself.
pub proof fn lemma_no_keys_unchanged(t: Seq<char>, args: Seq<Seq<char>>)
    requires
        plain_template_from(t, None),
        keys_from(t, None).len() == 0,
    ensures
        substitute_from(t, args, None) == Some(t),
    decreases t.len(),
{
    if t.len() > 0 {
        let rest = t.drop_first();
        if t[0] == '{' {
            lemma_open_placeholder_has_key(rest, Seq::empty());
        } else {
            lemma_no_keys_unchanged(rest, args);
            assert(seq![t[0]] + rest =~= t);
        }
    }
}

/// The indices that the placeholders of `t` name.
pub open spec fn indices(t: Seq<char>) -> Set<nat> {
    Set::new(|v: nat| exists|i: int| 0 <= i < keys(t).len() && key_value(#[trigger] keys(t)[i]) == v)
}

/// A plain template whose placeholders name exactly the indices below `k`
/// renders exactly when it is given `k` arguments. Left out: a template with
/// placeholders given more arguments than it names (it renders), and
/// arguments that leave the text unchanged (the render faults).
pub proof fn lemma_render_arity(m: MessageView, k: nat)
    requires
        is_plain_template(m.text),
        forall|i: int| 0 <= i < keys(m.text).len() ==> is_index_key(#[trigger] keys(m.text)[i]),
        indices(m.text) == Set::new(|v: nat| v < k),
        !(k > 0 && m.args.len() > k),
        m.args.len() == k && k > 0 ==> substitute(m.text, m.args) != Some(m.text),
    ensures
        rendered(m) is Some <==> m.args.len() == k,
{
    let ks = keys(m.text);
    let n = m.args.len();
    lemma_substitute_some(m.text, m.args, None);
    assert forall|i: int| 0 <= i < ks.len() implies key_value(#[trigger] ks[i]) < k by {
        assert(indices(m.text).contains(key_value(ks[i])));
    }
    if n < k {
        let v = (k - 1) as nat;
        assert(Set::new(|v: nat| v < k).contains(v));
        assert(indices(m.text).contains(v));
        let i = choose|i: int| 0 <= i < ks.len() && key_value(#[trigger] ks[i]) == v;
        assert(!names_argument(ks[i], n));
    } else if n > k {
        if ks.len() > 0 {
            assert(key_value(ks[0]) < k);
        }
        lemma_no_keys_unchanged(m.text, m.args);
    } else {
        assert forall|i: int| 0 <= i < ks.len() implies names_argument(#[trigger] ks[i], n) by {}
    }
}

/// Message equality is an equivalence, and it is decided by the template and
/// the arguments, position by position, alone.
pub proof fn lemma_message_eq(a: Message, b: Message, c: Message)
    ensures
        a.eq_spec(&a),
        a.eq_spec(&b) == b.eq_spec(&a),
        a.eq_spec(&b) && b.eq_spec(&c) ==> a.eq_spec(&c),
        a.eq_spec(&b) <==> {
            &&& a.text@ == b.text@
            &&& a.args@.len() == b.args@.len()
            &&& forall|i: int| 0 <= i < a.args@.len() ==> (#[trigger] a.args@[i])@ == b.args@[i]@
        },
{
    if a.text@ == b.text@ && a.args@.len() == b.args@.len() && forall|i: int|
        0 <= i < a.args@.len() ==> (#[trigger] a.args@[i])@ == b.args@[i]@ {
        assert(a@.args =~= b@.args);
    }
    if a.eq_spec(&b) {
        assert(a@ == b@);
        assert(a@.args.len() == a.args@.len());
        assert forall|i: int| 0 <= i < a.args@.len() implies (#[trigger] a.args@[i])@ == b.args@[i]@ by {
            assert(a@.args[i] == b@.args[i]);
        }
    }
}

/// The message catalog: the template for each validator key, and the empty
/// template for a key it does not hold.
pub open spec fn template_of(key: Seq<char>) -> Seq<char> {
    if key == "max"@ {
        "Must not contain more characters than {0}"@
    } else if key == "min"@ {
        "Must not have less characters than {0}"@
    } else if key == "within"@ {
        "Must be chars length within a range of {0}-{1}"@
    } else if key == "contains"@ {
        "Must contain {0}"@
    } else if key == "not_contain"@ {
        "Must not contain {0}"@
    } else {
        Seq::empty()
    }
}

/// Looks up the template for a validator key in the message catalog.
pub fn message_template(key: &str) -> (r: String)
    ensures
        r@ == template_of(key@),
{
    let k = key.to_owned();
    if k == "max".to_owned() {
        "Must not contain more characters than {0}".to_owned()
    } else if k == "min".to_owned() {
        "Must not have less characters than {0}".to_owned()
    } else if k == "within".to_owned() {
        "Must be chars length within a range of {0}-{1}".to_owned()
    } else if k == "contains".to_owned() {
        "Must contain {0}".to_owned()
    } else if k == "not_contain".to_owned() {
        "Must not contain {0}".to_owned()
    } else {
        String::new()
    }
}

} // verus!
