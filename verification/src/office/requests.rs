//! What a web request says: who sends it, in which form, and what they want back.
use crate::json::{FieldModel, JsonField};
use crate::table::Table;
use crate::text::{
    begins, begins_with, chars_of, contains_text, cut_at, cut_text, has_text, lemma_cut_at,
    lemma_one_piece, lower, lowered, occurs_at, opt_str, opt_text, pieces, pieces_of, same_text,
    texts, trim, trimmed,
};
use vstd::prelude::*;

verus! {

/// A field of a form: a text, or the items of a list.
#[derive(Clone, Debug, Eq, PartialEq)]
pub enum FormValue {
    Text(String),
    Items(Vec<String>),
}

#[verifier::ext_equal]
pub enum FormModel {
    Text(Seq<char>),
    Items(Seq<Seq<char>>),
}

impl View for FormValue {
    type V = FormModel;

    open spec fn view(&self) -> FormModel {
        match *self {
            FormValue::Text(t) => FormModel::Text(t@),
            FormValue::Items(v) => FormModel::Items(texts(v@)),
        }
    }
}

/// The names and values that `url` reads from the body of a form, in order.
pub uninterp spec fn form_pairs(body: Seq<u8>) -> Seq<(Seq<char>, Seq<char>)>;

/// Trusted: `url::form_urlencoded::parse`. The names and values it gives depend
/// on the bytes alone.
#[verifier::external_body]
fn parse_pairs(body: &Vec<u8>) -> (r: Vec<(String, String)>)
    ensures
        r@.map_values(|p: (String, String)| (p.0@, p.1@)) == form_pairs(body@),
{
    url::form_urlencoded::parse(body).into_owned().collect()
}

/// Whether the field of this name is a list.
pub open spec fn is_list(name: Seq<char>) -> bool {
    name == "capabilities"@ || name == "avoid"@ || name == "profile_updates"@
}

/// The texts that are not empty, without the white space around them.
pub open spec fn filled(s: Seq<Seq<char>>) -> Seq<Seq<char>>
    decreases s.len(),
{
    if s.len() == 0 {
        Seq::empty()
    } else {
        let head = filled(s.drop_last());
        if trim(s.last()).len() > 0 {
            head.push(trim(s.last()))
        } else {
            head
        }
    }
}

/// The items of a list, parted by commas or line breaks.
pub open spec fn list_items(value: Seq<char>) -> Seq<Seq<char>> {
    filled(pieces(value, ",，\n"@))
}

pub open spec fn form_value(name: Seq<char>, value: Seq<char>) -> FormModel {
    if is_list(name) {
        FormModel::Items(list_items(value))
    } else {
        FormModel::Text(value)
    }
}

/// The fields of a form; the last value of a name counts.
pub open spec fn form_map(pairs: Seq<(Seq<char>, Seq<char>)>) -> Map<Seq<char>, FormModel>
    decreases pairs.len(),
{
    if pairs.len() == 0 {
        Map::empty()
    } else {
        form_map(pairs.drop_last()).insert(
            pairs.last().0,
            form_value(pairs.last().0, pairs.last().1),
        )
    }
}

pub open spec fn form_models(t: Table<FormValue>) -> Map<Seq<char>, FormModel> {
    t@.map_values(|v: FormValue| v@)
}

fn split_items(value: &str) -> (r: Vec<String>)
    ensures
        texts(r@) == list_items(value@),
{
    let all = pieces_of(value, ",，\n");
    let ghost s = pieces(value@, ",，\n"@);
    let mut out: Vec<String> = Vec::new();
    let mut i: usize = 0;
    assert(texts(out@) =~= filled(s.take(0)));
    while i < all.len()
        invariant
            i <= all@.len(),
            s == texts(all@),
            texts(out@) == filled(s.take(i as int)),
        decreases all@.len() - i,
    {
        let ghost before = texts(out@);
        proof {
            assert(s.take(i + 1).drop_last() =~= s.take(i as int));
            assert(s.take(i + 1).last() == all@[i as int]@);
        }
        let item = trimmed(all[i].as_str());
        if chars_of(item).len() > 0 {
            out.push(item.to_string());
            assert(texts(out@) =~= before.push(item@));
        }
        i = i + 1;
    }
    assert(s.take(i as int) =~= s);
    out
}

/// The fields of a form with these names and values.
pub fn form_fields_of(pairs: &Vec<(String, String)>) -> (r: Table<FormValue>)
    ensures
        form_models(r) == form_map(pairs@.map_values(|p: (String, String)| (p.0@, p.1@))),
{
    let ghost s = pairs@.map_values(|p: (String, String)| (p.0@, p.1@));
    let mut out: Table<FormValue> = Table::new();
    let mut i: usize = 0;
    assert(form_models(out) =~= form_map(s.take(0)));
    while i < pairs.len()
        invariant
            i <= pairs@.len(),
            s == pairs@.map_values(|p: (String, String)| (p.0@, p.1@)),
            form_models(out) == form_map(s.take(i as int)),
        decreases pairs@.len() - i,
    {
        let ghost before = form_models(out);
        proof {
            assert(s.take(i + 1).drop_last() =~= s.take(i as int));
            assert(s.take(i + 1).last() == s[i as int]);
        }
        let name = pairs[i].0.as_str();
        let value = if same_text(name, "capabilities") || same_text(name, "avoid") || same_text(
            name,
            "profile_updates",
        ) {
            FormValue::Items(split_items(pairs[i].1.as_str()))
        } else {
            FormValue::Text(pairs[i].1.clone())
        };
        out.insert(name.to_string(), value);
        assert(form_models(out) =~= before.insert(name@, value@));
        i = i + 1;
    }
    assert(s.take(i as int) =~= s);
    out
}

/// The fields of a form.
pub fn form_fields(body: &Vec<u8>) -> (r: Table<FormValue>)
    ensures
        form_models(r) == form_map(form_pairs(body@)),
{
    form_fields_of(&parse_pairs(body))
}

/// Whether a body of this type is JSON.
pub open spec fn is_json(content_type: Option<Seq<char>>) -> bool {
    content_type matches Some(t) && begins(t, "application/json"@)
}

pub fn is_json_body(content_type: Option<&str>) -> (r: bool)
    ensures
        r == is_json(opt_str(content_type)),
{
    match content_type {
        Some(t) => begins_with(t, "application/json"),
        None => false,
    }
}

/// Whether a request with this body, which accepts this, asks for JSON.
pub open spec fn asks_for_json(content_type: Option<Seq<char>>, accept: Option<Seq<char>>) -> bool {
    is_json(content_type) || (accept matches Some(a) && has_text(a, "application/json"@))
}

/// Whether the answer is to be JSON: the body is, or it is accepted.
pub fn wants_json(content_type: Option<&str>, accept: Option<&str>) -> (r: bool)
    ensures
        r == asks_for_json(opt_str(content_type), opt_str(accept)),
{
    is_json_body(content_type) || match accept {
        Some(a) => contains_text(a, "application/json"),
        None => false,
    }
}

/// What a switch of a request says: the switch itself, a word or a number.
pub open spec fn switch(value: FieldModel) -> Result<bool, Seq<char>> {
    match value {
        FieldModel::Bool(b) => Ok(b),
        FieldModel::Null => Ok(false),
        FieldModel::Text(t) => {
            let word = lower(trim(t));
            if word == ""@ || word == "false"@ || word == "0"@ || word == "no"@ || word == "off"@ {
                Ok(false)
            } else if word == "true"@ || word == "1"@ || word == "yes"@ || word == "on"@ {
                Ok(true)
            } else {
                Err("invalid boolean string `"@ + word + "`"@)
            }
        },
        FieldModel::Number(n) => if n == "0"@ {
            Ok(false)
        } else if n == "1"@ {
            Ok(true)
        } else {
            Err("boolean number must be 0 or 1"@)
        },
        FieldModel::Nested(compact, _) => Err("invalid boolean value `"@ + compact + "`"@),
    }
}

/// What a switch of a request says.
pub fn deserialize_form_compatible_bool(value: &JsonField) -> (r: Result<bool, String>)
    ensures
        match r {
            Ok(b) => switch(value@) == Ok::<bool, Seq<char>>(b),
            Err(e) => switch(value@) == Err::<bool, Seq<char>>(e@),
        },
{
    match value {
        JsonField::Bool(b) => Ok(*b),
        JsonField::Null => Ok(false),
        JsonField::Text(t) => {
            let word = lowered(trimmed(t.as_str()));
            let w = word.as_str();
            if same_text(w, "") || same_text(w, "false") || same_text(w, "0") || same_text(w, "no")
                || same_text(w, "off") {
                Ok(false)
            } else if same_text(w, "true") || same_text(w, "1") || same_text(w, "yes")
                || same_text(w, "on") {
                Ok(true)
            } else {
                let mut out = "invalid boolean string `".to_string();
                out.append(w);
                out.append("`");
                Err(out)
            }
        },
        JsonField::Number(n) => if same_text(n.as_str(), "0") {
            Ok(false)
        } else if same_text(n.as_str(), "1") {
            Ok(true)
        } else {
            Err("boolean number must be 0 or 1".to_string())
        },
        JsonField::Nested { compact, .. } => {
            let mut out = "invalid boolean value `".to_string();
            out.append(compact.as_str());
            out.append("`");
            Err(out)
        },
    }
}

/// The value of a cookie, where it is the one of this name and not empty.
pub open spec fn cookie_value(cookie: Seq<char>, name: Seq<char>) -> Option<Seq<char>> {
    match cut_at(trim(cookie), "="@) {
        Some((key, value)) => if key == name && value.len() > 0 {
            Some(value)
        } else {
            None
        },
        None => None,
    }
}

/// The value of the first such cookie.
pub open spec fn first_cookie(cookies: Seq<Seq<char>>, name: Seq<char>) -> Option<Seq<char>>
    decreases cookies.len(),
{
    if cookies.len() == 0 {
        None
    } else if cookie_value(cookies[0], name) is Some {
        cookie_value(cookies[0], name)
    } else {
        first_cookie(cookies.skip(1), name)
    }
}

/// The session that the cookies of a request name.
pub open spec fn named_session(header: Option<Seq<char>>, name: Seq<char>) -> Option<Seq<char>> {
    match header {
        Some(raw) => first_cookie(pieces(raw, ";"@), name),
        None => None,
    }
}

/// The session that the cookies of a request name.
pub fn session_token(cookie_name: &str, cookies: Option<&str>) -> (r: Option<String>)
    ensures
        opt_text(r) == named_session(opt_str(cookies), cookie_name@),
{
    let raw = match cookies {
        Some(raw) => raw,
        None => {
            return None;
        },
    };
    let all = pieces_of(raw, ";");
    let ghost s = pieces(raw@, ";"@);
    let mut i: usize = 0;
    assert(s.skip(0) =~= s);
    while i < all.len()
        invariant
            i <= all@.len(),
            s == texts(all@),
            s == pieces(raw@, ";"@),
            opt_str(cookies) == Some(raw@),
            first_cookie(s, cookie_name@) == first_cookie(s.skip(i as int), cookie_name@),
        decreases all@.len() - i,
    {
        proof {
            assert(s.skip(i as int)[0] == all@[i as int]@);
            assert(s.skip(i as int).skip(1) =~= s.skip(i + 1));
        }
        if let Some((key, value)) = cut_text(trimmed(all[i].as_str()), "=") {
            if same_text(key, cookie_name) && chars_of(value).len() > 0 {
                return Some(value.to_string());
            }
        }
        i = i + 1;
    }
    None
}

/// The cookie that opens a session.
pub open spec fn opening_cookie(name: Seq<char>, token: Seq<char>) -> Seq<char> {
    name + "="@ + token + "; Path=/; HttpOnly; SameSite=Lax"@
}

/// The cookie that ends a session.
pub open spec fn ending_cookie(name: Seq<char>) -> Seq<char> {
    name + "=; Path=/; HttpOnly; SameSite=Lax; Max-Age=0"@
}

/// The cookie that opens a session.
pub fn session_cookie(cookie_name: &str, token: &str) -> (r: String)
    ensures
        r@ == opening_cookie(cookie_name@, token@),
{
    let mut out = cookie_name.to_string();
    out.append("=");
    out.append(token);
    out.append("; Path=/; HttpOnly; SameSite=Lax");
    out
}

/// The cookie that ends a session.
pub fn expire_session_cookie(cookie_name: &str) -> (r: String)
    ensures
        r@ == ending_cookie(cookie_name@),
{
    let mut out = cookie_name.to_string();
    out.append("=; Path=/; HttpOnly; SameSite=Lax; Max-Age=0");
    out
}

/// The cookie that opened a session names it when it comes back.
pub proof fn law_cookie_names_its_session(name: Seq<char>, token: Seq<char>)
    requires
        token.len() > 0,
        !name.contains('='),
        !name.contains(';'),
        !token.contains(';'),
        trim(name + "="@ + token) == name + "="@ + token,
    ensures
        named_session(Some(name + "="@ + token), name) == Some(token),
{
    reveal_strlit("=");
    reveal_strlit(";");
    let pair = name + "="@ + token;
    assert forall|i: int| 0 <= i < pair.len() implies !(";"@).contains(#[trigger] pair[i]) by {
        if (";"@).contains(pair[i]) {
            assert(pair[i] == ';');
            if i < name.len() {
                assert(name[i] == ';');
            } else if i > name.len() {
                assert(token[i - name.len() - 1] == ';');
            }
        }
    }
    lemma_one_piece(pair, ";"@);
    assert forall|j: int| 0 <= j < name.len() implies !occurs_at(pair, "="@, j) by {
        if occurs_at(pair, "="@, j) {
            assert(pair.subrange(j, j + 1)[0] == '=');
            assert(name[j] == '=');
        }
    }
    let k = name.len() as int;
    assert(pair.subrange(k, k + 1) =~= "="@);
    lemma_cut_at(pair, "="@, k);
    assert(pair.take(k) =~= name);
    assert(pair.skip(k + 1) =~= token);
    assert(seq![pair][0] == pair);
}

/// A request asks for JSON where its body is JSON, or where it accepts JSON.
pub proof fn law_who_asks_for_json(content_type: Option<Seq<char>>, accept: Option<Seq<char>>)
    ensures
        asks_for_json(content_type, accept) <==> (content_type is Some && begins(
            content_type->0,
            "application/json"@,
        )) || (accept is Some && has_text(accept->0, "application/json"@)),
{
}

/// A switch is what it says: on, yes, true and one are on; off, no, false, zero and
/// nothing are off; anything else is refused.
pub proof fn law_switches_say_on_or_off(value: FieldModel)
    ensures
        value matches FieldModel::Bool(b) ==> switch(value) == Ok::<bool, Seq<char>>(b),
        value is Null ==> switch(value) == Ok::<bool, Seq<char>>(false),
        value is Nested ==> switch(value) is Err,
        value matches FieldModel::Number(n) ==> (n == "1"@ ==> switch(value) == Ok::<
            bool,
            Seq<char>,
        >(true)) && (switch(value) is Ok <==> n == "0"@ || n == "1"@) && (switch(value) == Ok::<
            bool,
            Seq<char>,
        >(true) ==> n == "1"@),
        value matches FieldModel::Text(t) ==> {
            let w = lower(trim(t));
            &&& switch(value) is Ok <==> (w == "true"@ || w == "1"@ || w == "yes"@ || w == "on"@ || w
                == ""@ || w == "false"@ || w == "0"@ || w == "no"@ || w == "off"@)
            &&& switch(value) == Ok::<bool, Seq<char>>(true) ==> w == "true"@ || w == "1"@ || w
                == "yes"@ || w == "on"@
            &&& w == "true"@ || w == "1"@ || w == "yes"@ || w == "on"@ ==> switch(value) == Ok::<
                bool,
                Seq<char>,
            >(true)
            &&& switch(value) == Ok::<bool, Seq<char>>(false) ==> w == ""@ || w == "false"@ || w
                == "0"@ || w == "no"@ || w == "off"@
        },
{
    reveal_strlit("");
    reveal_strlit("false");
    reveal_strlit("0");
    reveal_strlit("no");
    reveal_strlit("off");
    reveal_strlit("true");
    reveal_strlit("1");
    reveal_strlit("yes");
    reveal_strlit("on");
    assert("1"@[0] != "0"@[0]);
    assert("on"@[0] != "no"@[0]);
    assert("yes"@[0] != "off"@[0]);
    assert("1"@ != "0"@ && "on"@ != "no"@ && "yes"@ != "off"@);
    assert("true"@.len() == 4 && "false"@.len() == 5 && ""@.len() == 0);
    assert("off"@.len() == 3 && "yes"@.len() == 3 && "on"@.len() == 2 && "no"@.len() == 2);
    assert("0"@.len() == 1 && "1"@.len() == 1);
}

/// The last value of a name counts; a list is parted into its items, and any other
/// value is taken as it is.
pub proof fn law_last_values_count(
    pairs: Seq<(Seq<char>, Seq<char>)>,
    name: Seq<char>,
    value: Seq<char>,
    other: Seq<char>,
)
    ensures
        form_map(pairs.push((name, value))).contains_key(name),
        name == "capabilities"@ || name == "avoid"@ || name == "profile_updates"@ ==> form_map(
            pairs.push((name, value)),
        )[name] == FormModel::Items(list_items(value)),
        name != "capabilities"@ && name != "avoid"@ && name != "profile_updates"@ ==> form_map(
            pairs.push((name, value)),
        )[name] == FormModel::Text(value),
        other != name ==> form_map(pairs.push((name, value))).contains_key(other) == form_map(
            pairs,
        ).contains_key(other) && (form_map(pairs).contains_key(other) ==> form_map(
            pairs.push((name, value)),
        )[other] == form_map(pairs)[other]),
{
    assert(pairs.push((name, value)).drop_last() =~= pairs);
}

/// The items of a list say something and are trimmed.
pub proof fn law_items_say_something(s: Seq<Seq<char>>, i: int)
    requires
        0 <= i < filled(s).len(),
    ensures
        filled(s)[i].len() > 0,
        trim(filled(s)[i]) == filled(s)[i],
        exists|j: int| 0 <= j < s.len() && trim(#[trigger] s[j]) == filled(s)[i],
    decreases s.len(),
{
    let h = s.drop_last();
    crate::text::law_trimming_once_is_enough(s.last());
    if i < filled(h).len() {
        law_items_say_something(h, i);
        let j = choose|j: int| 0 <= j < h.len() && trim(#[trigger] h[j]) == filled(h)[i];
        assert(s[j] == h[j]);
        assert(filled(s)[i] == filled(h)[i]);
    } else {
        assert(s[s.len() - 1] == s.last());
    }
}

/// What ends a session names no session when it comes back: its cookie is empty.
pub proof fn law_ended_sessions_are_not_named(name: Seq<char>)
    requires
        !name.contains('='),
        trim(name + "="@) == name + "="@,
    ensures
        cookie_value(name + "="@, name) is None,
        begins(ending_cookie(name), name + "=;"@),
        begins(opening_cookie(name, Seq::empty()), name + "=;"@),
{
    reveal_strlit("=");
    reveal_strlit("=;");
    reveal_strlit("; Path=/; HttpOnly; SameSite=Lax");
    reveal_strlit("=; Path=/; HttpOnly; SameSite=Lax; Max-Age=0");
    let e = ending_cookie(name);
    let h = name + "=;"@;
    assert(e.subrange(0, h.len() as int) =~= h);
    let o = opening_cookie(name, Seq::empty());
    assert(o.subrange(0, h.len() as int) =~= h);
    let c = name + "="@;
    crate::text::law_cuts_are_made_at_the_first_mark(c, "="@);
    match cut_at(c, "="@) {
        Some((key, value)) => {
            if key == name && value.len() > 0 {
                assert((key + "="@ + value).len() > c.len());
            }
        },
        None => {},
    }
}

/// The cookie of a session is for all paths, kept from scripts, and sent from the own
/// site; the one that ends it is the same, but empty and over at once.
pub proof fn law_session_cookies_are_confined(name: Seq<char>, token: Seq<char>)
    ensures
        opening_cookie(name, token) == name + "="@ + token + "; Path=/; HttpOnly; SameSite=Lax"@,
        ending_cookie(name) == opening_cookie(name, Seq::empty()) + "; Max-Age=0"@,
{
    reveal_strlit("=");
    reveal_strlit("; Path=/; HttpOnly; SameSite=Lax");
    reveal_strlit("; Max-Age=0");
    reveal_strlit("=; Path=/; HttpOnly; SameSite=Lax; Max-Age=0");
    assert(ending_cookie(name) =~= opening_cookie(name, Seq::empty()) + "; Max-Age=0"@);
}

} // verus!
