use vstd::prelude::*;
use vstd::string::StringExecFns;

use crate::installer::{
    fresh_settings, settings_head, settings_middle, settings_note, settings_note_text,
    settings_tail, strip_comments, without_comment_lines,
};
use crate::text::{chars_equal, chars_of};

verus! {

/// A JSON value of Zed's settings file, with each object's members in order.
pub enum SettingsJson {
    Null,
    Bool(bool),
    /// A number, in the notation `serde_json` prints for it.
    Number(String),
    Text(String),
    List(Vec<SettingsJson>),
    Object(Vec<(String, SettingsJson)>),
}

/// The mathematical value of a `SettingsJson`.
pub enum JsonView {
    Null,
    Bool(bool),
    Number(Seq<char>),
    Text(Seq<char>),
    List(Seq<JsonView>),
    Object(Seq<(Seq<char>, JsonView)>),
}

/// The value of a `SettingsJson`.
pub open spec fn json_view(v: SettingsJson) -> JsonView
    decreases v,
{
    match v {
        SettingsJson::Null => JsonView::Null,
        SettingsJson::Bool(b) => JsonView::Bool(b),
        SettingsJson::Number(n) => JsonView::Number(n@),
        SettingsJson::Text(t) => JsonView::Text(t@),
        SettingsJson::List(items) => JsonView::List(list_view(items@)),
        SettingsJson::Object(members) => JsonView::Object(members_view(members@)),
    }
}

/// The values of the elements of a list.
pub open spec fn list_view(items: Seq<SettingsJson>) -> Seq<JsonView>
    decreases items,
{
    if items.len() == 0 {
        Seq::empty()
    } else {
        list_view(items.subrange(0, items.len() - 1)).push(json_view(items[items.len() - 1]))
    }
}

/// The names and values of the members of an object.
pub open spec fn members_view(members: Seq<(String, SettingsJson)>) -> Seq<(Seq<char>, JsonView)>
    decreases members,
{
    if members.len() == 0 {
        Seq::empty()
    } else {
        members_view(members.subrange(0, members.len() - 1)).push(
            (members[members.len() - 1].0@, json_view(members[members.len() - 1].1)),
        )
    }
}

impl View for SettingsJson {
    type V = JsonView;

    open spec fn view(&self) -> JsonView {
        json_view(*self)
    }
}


/// `members_view` takes each member to its name's characters and its value's view.
pub proof fn lemma_members_view(members: Seq<(String, SettingsJson)>)
    ensures
        members_view(members).len() == members.len(),
        forall|i: int| 0 <= i < members.len() ==> #[trigger] members_view(members)[i] == (
            members[i].0@,
            json_view(members[i].1),
        ),
    decreases members.len(),
{
    if members.len() > 0 {
        let init = members.subrange(0, members.len() - 1);
        lemma_members_view(init);
        assert forall|i: int| 0 <= i < members.len() implies #[trigger] members_view(members)[i] == (
            members[i].0@,
            json_view(members[i].1),
        ) by {
            if i < members.len() - 1 {
                assert(init[i] == members[i]);
            }
        }
    }
}

/// `members_view` agrees element by element: two member lists with the same length whose
/// elements have the same views have the same view.
pub proof fn lemma_members_view_ext(a: Seq<(String, SettingsJson)>, b: Seq<(Seq<char>, JsonView)>)
    requires
        a.len() == b.len(),
        forall|i: int| 0 <= i < a.len() ==> (a[i].0@, json_view(a[i].1)) == b[i],
    ensures
        members_view(a) == b,
{
    lemma_members_view(a);
    assert(members_view(a) =~= b);
}

/// Index of the first member named `key` at or after `i`; the length when there is none.
pub open spec fn key_index_from(m: Seq<(Seq<char>, JsonView)>, key: Seq<char>, i: int) -> int
    decreases m.len() - i,
{
    if i < 0 || i >= m.len() {
        m.len() as int
    } else if m[i].0 == key {
        i
    } else {
        key_index_from(m, key, i + 1)
    }
}

/// Index of the member named `key`; the length when there is none.
pub open spec fn key_index(m: Seq<(Seq<char>, JsonView)>, key: Seq<char>) -> int {
    key_index_from(m, key, 0)
}

pub proof fn lemma_key_index_from(m: Seq<(Seq<char>, JsonView)>, key: Seq<char>, i: int)
    requires
        0 <= i <= m.len(),
    ensures
        i <= key_index_from(m, key, i) <= m.len(),
        key_index_from(m, key, i) < m.len() ==> m[key_index_from(m, key, i)].0 == key,
        forall|j: int| i <= j < key_index_from(m, key, i) ==> m[j].0 != key,
    decreases m.len() - i,
{
    if i < m.len() && m[i].0 != key {
        lemma_key_index_from(m, key, i + 1);
    }
}

/// The value of member `key` (`Null` when there is none), as `IndexMut` on a
/// `serde_json::Value` finds or inserts it.
pub open spec fn member(m: Seq<(Seq<char>, JsonView)>, key: Seq<char>) -> JsonView {
    let i = key_index(m, key);
    if 0 <= i < m.len() {
        m[i].1
    } else {
        JsonView::Null
    }
}

/// The members with member `key` set to `x`: replaced in place, or added at the end.
pub open spec fn with_member(m: Seq<(Seq<char>, JsonView)>, key: Seq<char>, x: JsonView) -> Seq<
    (Seq<char>, JsonView),
> {
    let i = key_index(m, key);
    if 0 <= i < m.len() {
        m.update(i, (key, x))
    } else {
        m.push((key, x))
    }
}

/// The members of a value that can be indexed by name: `Null` counts as an empty object.
pub open spec fn object_members(v: JsonView) -> Option<Seq<(Seq<char>, JsonView)>> {
    match v {
        JsonView::Null => Some(Seq::empty()),
        JsonView::Object(m) => Some(m),
        _ => None,
    }
}

/// `v` with the value at the path `keys` set to `x`, as `v[k1][k2]... = x` on a
/// `serde_json::Value` does; `None` when a value on the way is neither an object nor `null`.
pub open spec fn set_at(v: JsonView, keys: Seq<Seq<char>>, x: JsonView) -> Option<JsonView>
    decreases keys.len(),
{
    if keys.len() == 0 {
        Some(x)
    } else {
        match object_members(v) {
            None => None,
            Some(m) => match set_at(member(m, keys[0]), keys.drop_first(), x) {
                None => None,
                Some(c) => Some(JsonView::Object(with_member(m, keys[0], c))),
            },
        }
    }
}

/// The views of a list of keys.
pub open spec fn key_views(keys: Seq<&str>) -> Seq<Seq<char>> {
    keys.map_values(|k: &str| k@)
}

/// Index of the member of `members` named `key`, or the length when there is none.
pub(crate) fn find_member(members: &Vec<(String, SettingsJson)>, key: &str) -> (res: usize)
    ensures
        res == key_index(members_view(members@), key@),
{
    proof {
        lemma_members_view(members@);
    }
    let wanted = chars_of(key);
    let mut i: usize = 0;
    while i < members.len()
        invariant
            i <= members@.len(),
            wanted@ == key@,
            members_view(members@).len() == members@.len(),
            forall|j: int| 0 <= j < members@.len() ==> #[trigger] members_view(members@)[j] == (
                members@[j].0@,
                json_view(members@[j].1),
            ),
            key_index(members_view(members@), key@) == key_index_from(members_view(members@), key@, i as int),
        decreases members@.len() - i,
    {
        let name = chars_of(members[i].0.as_str());
        if chars_equal(name.as_slice(), wanted.as_slice()) {
            assert(members_view(members@)[i as int].0 == key@);
            return i;
        }
        assert(members_view(members@)[i as int].0 != key@);
        i += 1;
    }
    i
}

/// `v` with the value at the path `keys[from..]` set to `x`; `None` when a value on the way is
/// neither an object nor `null`.
fn set_path(v: SettingsJson, keys: &[&str], from: usize, x: SettingsJson) -> (res: Option<SettingsJson>)
    requires
        from <= keys@.len(),
    ensures
        match res {
            Some(w) => set_at(v@, key_views(keys@).skip(from as int), x@) == Some(w@),
            None => set_at(v@, key_views(keys@).skip(from as int), x@) is None,
        },
    decreases keys@.len() - from,
{
    let ghost vv = v@;
    let ghost path = key_views(keys@).skip(from as int);
    if from == keys.len() {
        assert(path.len() == 0);
        return Some(x);
    }
    assert(path[0] == keys@[from as int]@);
    assert(path.drop_first() =~= key_views(keys@).skip(from + 1));
    let mut members: Vec<(String, SettingsJson)> = match v {
        SettingsJson::Null => Vec::new(),
        SettingsJson::Object(members) => members,
        _ => {
            return None;
        },
    };
    let ghost m = members_view(members@);
    assert(object_members(vv) == Some(m));
    let key = keys[from];
    let i = find_member(&members, key);
    proof {
        lemma_key_index_from(m, key@, 0);
        lemma_members_view(members@);
    }
    if i < members.len() {
        let (name, child) = members.remove(i);
        assert(json_view(child) == member(m, key@));
        match set_path(child, keys, from + 1, x) {
            None => None,
            Some(c) => {
                members.insert(i, (name, c));
                proof {
                    lemma_members_view_ext(members@, with_member(m, key@, c@));
                }
                Some(SettingsJson::Object(members))
            },
        }
    } else {
        match set_path(SettingsJson::Null, keys, from + 1, x) {
            None => None,
            Some(c) => {
                let ghost before = members@;
                members.push((String::from_str(key), c));
                proof {
                    lemma_members_view_ext(members@, with_member(m, key@, c@));
                }
                Some(SettingsJson::Object(members))
            },
        }
    }
}


/// The values of a list's elements, one by one.
pub proof fn lemma_list_view(items: Seq<SettingsJson>)
    ensures
        list_view(items).len() == items.len(),
        forall|i: int| 0 <= i < items.len() ==> #[trigger] list_view(items)[i] == json_view(items[i]),
    decreases items.len(),
{
    if items.len() > 0 {
        let init = items.subrange(0, items.len() - 1);
        lemma_list_view(init);
        assert forall|i: int| 0 <= i < items.len() implies #[trigger] list_view(items)[i] == json_view(
            items[i],
        ) by {
            if i < items.len() - 1 {
                assert(init[i] == items[i]);
            }
        }
    }
}

/// The path of the `java` executable in the settings: `lsp.bsl.binary.path`.
pub open spec fn java_path_keys() -> Seq<Seq<char>> {
    seq!["lsp"@, "bsl"@, "binary"@, "path"@]
}

/// The path of the server's arguments in the settings: `lsp.bsl.binary.arguments`.
pub open spec fn arguments_keys() -> Seq<Seq<char>> {
    seq!["lsp"@, "bsl"@, "binary"@, "arguments"@]
}

/// The path of BSL's language servers in the settings: `languages.BSL.language_servers`.
pub open spec fn servers_keys() -> Seq<Seq<char>> {
    seq!["languages"@, "BSL"@, "language_servers"@]
}

/// The path of BSL's format-on-save switch in the settings: `languages.BSL.format_on_save`.
pub open spec fn format_keys() -> Seq<Seq<char>> {
    seq!["languages"@, "BSL"@, "format_on_save"@]
}

/// The arguments that start the jar at `jar`: `["-Xmx4g", "-jar", jar]`.
pub open spec fn arguments_value(jar: Seq<char>) -> JsonView {
    JsonView::List(seq![JsonView::Text("-Xmx4g"@), JsonView::Text("-jar"@), JsonView::Text(jar)])
}

/// The language servers of BSL: `["bsl"]`.
pub open spec fn servers_value() -> JsonView {
    JsonView::List(seq![JsonView::Text("bsl"@)])
}

/// The existing settings `v` with the server's entries set, in this order: the `java` path,
/// the arguments, the language servers and format-on-save; `None` when a value on one of
/// these paths is neither an object nor `null`.
pub open spec fn merged_settings(v: JsonView, java: Seq<char>, jar: Seq<char>) -> Option<JsonView> {
    match set_at(v, java_path_keys(), JsonView::Text(java)) {
        None => None,
        Some(a) => match set_at(a, arguments_keys(), arguments_value(jar)) {
            None => None,
            Some(b) => match set_at(b, servers_keys(), servers_value()) {
                None => None,
                Some(c) => set_at(c, format_keys(), JsonView::Text("off"@)),
            },
        },
    }
}

/// A text value holding `s`.
fn text(s: &str) -> (res: SettingsJson)
    ensures
        res@ == JsonView::Text(s@),
{
    SettingsJson::Text(String::from_str(s))
}

/// Sets the value at the path `keys` of `v` to `x`.
fn set_keys(v: SettingsJson, keys: &[&str], x: SettingsJson) -> (res: Option<SettingsJson>)
    ensures
        match res {
            Some(w) => set_at(v@, key_views(keys@), x@) == Some(w@),
            None => set_at(v@, key_views(keys@), x@) is None,
        },
{
    let res = set_path(v, keys, 0, x);
    assert(key_views(keys@).skip(0) =~= key_views(keys@));
    res
}

/// The existing settings `v` with the `java` executable and the jar of the BSL language server
/// set, as the installer writes them; `None` when `v`, or a value on the way to one of the
/// entries, is neither an object nor `null`.
pub fn merge_settings(v: SettingsJson, java: &str, jar: &str) -> (res: Option<SettingsJson>)
    ensures
        match res {
            Some(w) => merged_settings(v@, java@, jar@) == Some(w@),
            None => merged_settings(v@, java@, jar@) is None,
        },
{
    let path_keys = vec!["lsp", "bsl", "binary", "path"];
    assert(key_views(path_keys@) =~= java_path_keys());
    let a = match set_keys(v, path_keys.as_slice(), text(java)) {
        Some(a) => a,
        None => {
            return None;
        },
    };
    let argument_keys = vec!["lsp", "bsl", "binary", "arguments"];
    assert(key_views(argument_keys@) =~= arguments_keys());
    let items = vec![text("-Xmx4g"), text("-jar"), text(jar)];
    proof {
        lemma_list_view(items@);
        assert(list_view(items@) =~= seq![JsonView::Text("-Xmx4g"@), JsonView::Text("-jar"@), JsonView::Text(jar@)]);
    }
    let arguments = SettingsJson::List(items);
    let b = match set_keys(a, argument_keys.as_slice(), arguments) {
        Some(b) => b,
        None => {
            return None;
        },
    };
    let server_keys = vec!["languages", "BSL", "language_servers"];
    assert(key_views(server_keys@) =~= servers_keys());
    let server_items = vec![text("bsl")];
    proof {
        lemma_list_view(server_items@);
        assert(list_view(server_items@) =~= seq![JsonView::Text("bsl"@)]);
    }
    let servers = SettingsJson::List(server_items);
    let c = match set_keys(b, server_keys.as_slice(), servers) {
        Some(c) => c,
        None => {
            return None;
        },
    };
    let format = vec!["languages", "BSL", "format_on_save"];
    assert(key_views(format@) =~= format_keys());
    set_keys(c, format.as_slice(), text("off"))
}


#[verifier::external_type_specification]
#[verifier::external_body]
pub struct ExJsonValue(serde_json::Value);

/// What `serde_json::from_str::<serde_json::Value>` makes of a settings text: the value read,
/// or the text of its error.
pub uninterp spec fn parsed_settings(text: Seq<char>) -> Result<JsonView, Seq<char>>;

/// `serde_json::from_str::<serde_json::Value>` on a settings text. Claimed: the outcome is
/// `parsed_settings` of the text.
#[verifier::external_body]
pub(crate) fn parse_settings(text: &str) -> (res: Result<SettingsJson, String>)
    ensures
        match res {
            Ok(v) => parsed_settings(text@) == Ok::<JsonView, Seq<char>>(v@),
            Err(m) => parsed_settings(text@) == Err::<JsonView, Seq<char>>(m@),
        },
{
    match serde_json::from_str::<serde_json::Value>(text) {
        Ok(value) => Ok(from_value(&value)),
        Err(error) => Err(error.to_string()),
    }
}

/// Converts a `serde_json::Value` variant by variant, for `parse_settings`; a number keeps
/// the notation `serde_json` prints for it.
#[verifier::external_body]
fn from_value(value: &serde_json::Value) -> SettingsJson {
    match value {
        serde_json::Value::Null => SettingsJson::Null,
        serde_json::Value::Bool(b) => SettingsJson::Bool(*b),
        serde_json::Value::Number(n) => SettingsJson::Number(n.to_string()),
        serde_json::Value::String(t) => SettingsJson::Text(t.clone()),
        serde_json::Value::Array(items) => SettingsJson::List(items.iter().map(from_value).collect()),
        serde_json::Value::Object(members) => SettingsJson::Object(
            members.iter().map(|(k, v)| (k.clone(), from_value(v))).collect(),
        ),
    }
}

/// What `serde_json::to_string_pretty` prints for a settings value, converted to a
/// `serde_json::Value` (members into its map, numbers parsed back from their notation): the
/// text, or the text of the first error.
pub uninterp spec fn pretty_settings(v: JsonView) -> Result<Seq<char>, Seq<char>>;

/// `serde_json::to_string_pretty` on a settings value. Claimed: the outcome is
/// `pretty_settings` of the value.
#[verifier::external_body]
fn render_settings(v: &SettingsJson) -> (res: Result<String, String>)
    ensures
        match res {
            Ok(t) => pretty_settings(v@) == Ok::<Seq<char>, Seq<char>>(t@),
            Err(m) => pretty_settings(v@) == Err::<Seq<char>, Seq<char>>(m@),
        },
{
    let value = to_value(v)?;
    serde_json::to_string_pretty(&value).map_err(|error| error.to_string())
}

/// Converts a settings value back to a `serde_json::Value` variant by variant, for
/// `render_settings`; a number's notation is parsed with `serde_json::Number::from_str`.
#[verifier::external_body]
fn to_value(v: &SettingsJson) -> Result<serde_json::Value, String> {
    Ok(match v {
        SettingsJson::Null => serde_json::Value::Null,
        SettingsJson::Bool(b) => serde_json::Value::Bool(*b),
        SettingsJson::Number(n) => serde_json::Value::Number(n.parse().map_err(|e: serde_json::Error| e.to_string())?),
        SettingsJson::Text(t) => serde_json::Value::String(t.clone()),
        SettingsJson::List(items) => serde_json::Value::Array(items.iter().map(to_value).collect::<Result<_, _>>()?),
        SettingsJson::Object(members) => serde_json::Value::Object(
            members.iter().map(|(k, v)| Ok((k.clone(), to_value(v)?))).collect::<Result<_, String>>()?,
        ),
    })
}

/// What the installer does with Zed's settings file.
pub enum SettingsAction {
    /// Write this text to the file.
    Write(String),
    /// Leave the file as it is and print this note.
    Note(String),
    /// A value on the way to the server's entries is neither an object nor `null`: editing
    /// the settings fails.
    Blocked,
}

/// The outcome for existing settings whose text, once parsed, gave `parsed`: the merged
/// settings printed, a note when the text did not parse, `Blocked` when the merge is
/// impossible, or an error when printing fails.
pub open spec fn parsed_outcome(
    parsed: Result<JsonView, Seq<char>>,
    path: Seq<char>,
    java: Seq<char>,
    jar: Seq<char>,
    res: Result<SettingsAction, String>,
) -> bool {
    match parsed {
        Err(e) => res matches Ok(SettingsAction::Note(n)) && n@ == settings_note_text(path, e, java, jar),
        Ok(v) => match merged_settings(v, java, jar) {
            None => res matches Ok(SettingsAction::Blocked),
            Some(w) => match pretty_settings(w) {
                Ok(t) => res matches Ok(SettingsAction::Write(out)) && out@ == t,
                Err(e) => res matches Err(m) && m@ == "failed to serialize settings: "@ + e,
            },
        },
    }
}

/// What to do with the settings at `path`, given what parsing their text gave.
pub fn settings_from_parsed(parsed: Result<SettingsJson, String>, path: &str, java: &str, jar: &str) -> (res: Result<
    SettingsAction,
    String,
>)
    ensures
        parsed_outcome(
            match parsed {
                Ok(v) => Ok::<JsonView, Seq<char>>(v@),
                Err(e) => Err::<JsonView, Seq<char>>(e@),
            },
            path@,
            java@,
            jar@,
            res,
        ),
{
    match parsed {
        Err(error) => Ok(SettingsAction::Note(settings_note(path, error.as_str(), java, jar))),
        Ok(v) => match merge_settings(v, java, jar) {
            None => Ok(SettingsAction::Blocked),
            Some(w) => match render_settings(&w) {
                Ok(t) => Ok(SettingsAction::Write(t)),
                Err(error) => {
                    let mut message = String::from_str("failed to serialize settings: ");
                    message.append(error.as_str());
                    Err(message)
                },
            },
        },
    }
}

/// What to do with Zed's settings file at `path`, whose text is `existing` (`None` when the
/// file is missing or empty), so that it starts the server with `java` and the jar at `jar`:
/// write fresh settings; or drop the comment lines, parse, merge and print the settings.
pub fn settings_update(existing: Option<&str>, path: &str, java: &str, jar: &str) -> (res: Result<
    SettingsAction,
    String,
>)
    ensures
        match existing {
            None => res matches Ok(SettingsAction::Write(t)) && t@ == settings_head() + java@
                + settings_middle() + jar@ + settings_tail(),
            Some(text) => parsed_outcome(
                parsed_settings(without_comment_lines(text@)),
                path@,
                java@,
                jar@,
                res,
            ),
        },
{
    match existing {
        None => Ok(SettingsAction::Write(fresh_settings(java, jar))),
        Some(text) => {
            let stripped = strip_comments(text);
            settings_from_parsed(parse_settings(stripped.as_str()), path, java, jar)
        },
    }
}


/// The value of member `key`, if there is one.
pub open spec fn lookup(m: Seq<(Seq<char>, JsonView)>, key: Seq<char>) -> Option<JsonView> {
    let i = key_index(m, key);
    if 0 <= i < m.len() {
        Some(m[i].1)
    } else {
        None
    }
}

/// The value at the path `keys` of `v`, if every step finds an object with that member.
pub open spec fn get_at(v: JsonView, keys: Seq<Seq<char>>) -> Option<JsonView>
    decreases keys.len(),
{
    if keys.len() == 0 {
        Some(v)
    } else {
        match v {
            JsonView::Object(m) => match lookup(m, keys[0]) {
                Some(c) => get_at(c, keys.drop_first()),
                None => None,
            },
            _ => None,
        }
    }
}

/// `v` and every value along the path `keys` can be indexed by name (objects or `null`).
pub open spec fn path_open(v: JsonView, keys: Seq<Seq<char>>) -> bool
    decreases keys.len(),
{
    match object_members(v) {
        None => false,
        Some(m) => keys.len() == 0 || path_open(member(m, keys[0]), keys.drop_first()),
    }
}

/// The paths `p` and `q` part: at some position both have a key, and the keys differ.
pub open spec fn diverges(p: Seq<Seq<char>>, q: Seq<Seq<char>>) -> bool
    decreases p.len(),
{
    p.len() > 0 && q.len() > 0 && (p[0] != q[0] || diverges(p.drop_first(), q.drop_first()))
}

/// The settings cannot take the server's entries: the settings, or a value on the way to
/// `lsp.bsl.binary` or `languages.BSL`, is neither an object nor `null` (where
/// `serde_json`'s `IndexMut` panics).
pub open spec fn blocked(v: JsonView) -> bool {
    !path_open(v, seq!["lsp"@, "bsl"@, "binary"@]) || !path_open(v, seq!["languages"@, "BSL"@])
}

proof fn lemma_key_index_is(m: Seq<(Seq<char>, JsonView)>, key: Seq<char>, j: int)
    requires
        0 <= j <= m.len(),
        j < m.len() ==> m[j].0 == key,
        forall|l: int| 0 <= l < j ==> m[l].0 != key,
    ensures
        key_index(m, key) == j,
{
    lemma_key_index_from(m, key, 0);
}

proof fn lemma_with_member(m: Seq<(Seq<char>, JsonView)>, key: Seq<char>, x: JsonView, other: Seq<char>)
    ensures
        lookup(with_member(m, key, x), key) == Some(x),
        member(with_member(m, key, x), key) == x,
        other != key ==> lookup(with_member(m, key, x), other) == lookup(m, other),
        other != key ==> member(with_member(m, key, x), other) == member(m, other),
{
    lemma_key_index_from(m, key, 0);
    lemma_key_index_from(m, other, 0);
    let i = key_index(m, key);
    let w = with_member(m, key, x);
    lemma_key_index_is(w, key, i);
    if other != key {
        let j = key_index(m, other);
        if j < m.len() {
            lemma_key_index_is(w, other, j);
        } else {
            lemma_key_index_is(w, other, w.len() as int);
        }
    }
}

proof fn lemma_set_at_reads_back(v: JsonView, q: Seq<Seq<char>>, x: JsonView)
    requires
        set_at(v, q, x) is Some,
    ensures
        get_at(set_at(v, q, x)->0, q) == Some(x),
    decreases q.len(),
{
    if q.len() > 0 {
        let m = object_members(v)->0;
        lemma_with_member(m, q[0], set_at(member(m, q[0]), q.drop_first(), x)->0, q[0]);
        lemma_set_at_reads_back(member(m, q[0]), q.drop_first(), x);
    }
}

proof fn lemma_set_at_keeps_others(v: JsonView, q: Seq<Seq<char>>, x: JsonView, p: Seq<Seq<char>>)
    requires
        set_at(v, q, x) is Some,
        diverges(p, q),
    ensures
        get_at(set_at(v, q, x)->0, p) == get_at(v, p),
        path_open(set_at(v, q, x)->0, p) == path_open(v, p),
    decreases q.len(),
{
    let m = object_members(v)->0;
    let c = set_at(member(m, q[0]), q.drop_first(), x)->0;
    lemma_with_member(m, q[0], c, p[0]);
    if p[0] == q[0] {
        lemma_set_at_keeps_others(member(m, q[0]), q.drop_first(), x, p.drop_first());
    }
}

proof fn lemma_set_at_opens(v: JsonView, q: Seq<Seq<char>>, x: JsonView, n: int)
    requires
        set_at(v, q, x) is Some,
        0 <= n < q.len(),
    ensures
        path_open(set_at(v, q, x)->0, q.take(n)),
    decreases q.len(),
{
    let m = object_members(v)->0;
    let c = set_at(member(m, q[0]), q.drop_first(), x)->0;
    lemma_with_member(m, q[0], c, q[0]);
    if n > 0 {
        lemma_set_at_opens(member(m, q[0]), q.drop_first(), x, n - 1);
        assert(q.take(n).drop_first() =~= q.drop_first().take(n - 1));
    }
}

proof fn lemma_set_at_succeeds(v: JsonView, q: Seq<Seq<char>>, x: JsonView)
    requires
        q.len() > 0,
    ensures
        set_at(v, q, x) is Some <==> path_open(v, q.drop_last()),
    decreases q.len(),
{
    if q.len() > 1 {
        if let Some(m) = object_members(v) {
            lemma_set_at_succeeds(member(m, q[0]), q.drop_first(), x);
            assert(q.drop_last()[0] == q[0]);
            assert(q.drop_last().drop_first() =~= q.drop_first().drop_last());
        }
    } else {
        assert(q.drop_last().len() == 0);
        if let Some(m) = object_members(v) {
            assert(set_at(member(m, q[0]), q.drop_first(), x) == Some(x));
        }
    }
}

/// The paths that merging the settings sets do not overlap.
proof fn lemma_settings_paths_part()
    ensures
        diverges(java_path_keys(), arguments_keys()),
        diverges(arguments_keys(), java_path_keys()),
        diverges(servers_keys(), format_keys()),
        diverges(format_keys(), servers_keys()),
        forall|a: Seq<Seq<char>>, b: Seq<Seq<char>>|
            #![trigger diverges(a, b)]
            #![trigger diverges(b, a)]
            a.len() > 0 && b.len() > 0 && a[0] == "lsp"@ && b[0] == "languages"@ ==> diverges(a, b)
                && diverges(b, a),
{
    reveal_strlit("path");
    reveal_strlit("arguments");
    reveal_strlit("language_servers");
    reveal_strlit("format_on_save");
    reveal_strlit("lsp");
    reveal_strlit("languages");
    assert("path"@.len() == 4 && "arguments"@.len() == 9);
    assert("language_servers"@.len() == 16 && "format_on_save"@.len() == 14);
    assert("lsp"@.len() == 3 && "languages"@.len() == 9);
    let j = java_path_keys();
    let a = arguments_keys();
    let j3 = j.drop_first().drop_first().drop_first();
    let a3 = a.drop_first().drop_first().drop_first();
    assert(j3[0] == "path"@ && a3[0] == "arguments"@);
    assert(diverges(j3, a3) && diverges(a3, j3));
    assert(diverges(j.drop_first().drop_first(), a.drop_first().drop_first()));
    assert(diverges(a.drop_first().drop_first(), j.drop_first().drop_first()));
    assert(diverges(j.drop_first(), a.drop_first()));
    assert(diverges(a.drop_first(), j.drop_first()));
    let sv = servers_keys();
    let f = format_keys();
    let s2 = sv.drop_first().drop_first();
    let f2 = f.drop_first().drop_first();
    assert(s2[0] == "language_servers"@ && f2[0] == "format_on_save"@);
    assert(diverges(s2, f2) && diverges(f2, s2));
    assert(diverges(sv.drop_first(), f.drop_first()));
    assert(diverges(f.drop_first(), sv.drop_first()));
}

/// Merging succeeds exactly when the settings are not blocked, and then the four entries
/// hold the server's `java` path, its arguments `["-Xmx4g", "-jar", jar]`, the language
/// servers `["bsl"]` and `"off"` for format-on-save.
pub proof fn law_merge_sets_the_server(v: JsonView, java: Seq<char>, jar: Seq<char>)
    ensures
        merged_settings(v, java, jar) is None <==> blocked(v),
        merged_settings(v, java, jar) matches Some(w) ==> {
            &&& get_at(w, java_path_keys()) == Some(JsonView::Text(java))
            &&& get_at(w, arguments_keys()) == Some(arguments_value(jar))
            &&& get_at(w, servers_keys()) == Some(servers_value())
            &&& get_at(w, format_keys()) == Some(JsonView::Text("off"@))
        },
{
    lemma_settings_paths_part();
    let binary = seq!["lsp"@, "bsl"@, "binary"@];
    let bsl = seq!["languages"@, "BSL"@];
    assert(java_path_keys().drop_last() =~= binary);
    assert(arguments_keys().drop_last() =~= binary);
    assert(servers_keys().drop_last() =~= bsl);
    assert(format_keys().drop_last() =~= bsl);
    assert(java_path_keys().take(3) =~= binary);
    assert(servers_keys().take(2) =~= bsl);
    assert(diverges(bsl, java_path_keys()));
    assert(diverges(bsl, arguments_keys()));
    assert(diverges(java_path_keys(), servers_keys()));
    assert(diverges(java_path_keys(), format_keys()));
    assert(diverges(arguments_keys(), servers_keys()));
    assert(diverges(arguments_keys(), format_keys()));
    lemma_set_at_succeeds(v, java_path_keys(), JsonView::Text(java));
    if let Some(a) = set_at(v, java_path_keys(), JsonView::Text(java)) {
        lemma_set_at_reads_back(v, java_path_keys(), JsonView::Text(java));
        lemma_set_at_opens(v, java_path_keys(), JsonView::Text(java), 3);
        lemma_set_at_keeps_others(v, java_path_keys(), JsonView::Text(java), bsl);
        lemma_set_at_succeeds(a, arguments_keys(), arguments_value(jar));
        let b = set_at(a, arguments_keys(), arguments_value(jar))->0;
        lemma_set_at_reads_back(a, arguments_keys(), arguments_value(jar));
        lemma_set_at_keeps_others(a, arguments_keys(), arguments_value(jar), bsl);
        lemma_set_at_keeps_others(a, arguments_keys(), arguments_value(jar), java_path_keys());
        lemma_set_at_succeeds(b, servers_keys(), servers_value());
        if let Some(c) = set_at(b, servers_keys(), servers_value()) {
            lemma_set_at_reads_back(b, servers_keys(), servers_value());
            lemma_set_at_opens(b, servers_keys(), servers_value(), 2);
            lemma_set_at_keeps_others(b, servers_keys(), servers_value(), java_path_keys());
            lemma_set_at_keeps_others(b, servers_keys(), servers_value(), arguments_keys());
            lemma_set_at_succeeds(c, format_keys(), JsonView::Text("off"@));
            lemma_set_at_reads_back(c, format_keys(), JsonView::Text("off"@));
            lemma_set_at_keeps_others(c, format_keys(), JsonView::Text("off"@), java_path_keys());
            lemma_set_at_keeps_others(c, format_keys(), JsonView::Text("off"@), arguments_keys());
            lemma_set_at_keeps_others(c, format_keys(), JsonView::Text("off"@), servers_keys());
        }
    }
}

/// Merging leaves every entry whose path parts from the four it sets as it was: the same
/// value, or absent as before.
pub proof fn law_merge_keeps_other_entries(v: JsonView, java: Seq<char>, jar: Seq<char>, p: Seq<Seq<char>>)
    requires
        diverges(p, java_path_keys()),
        diverges(p, arguments_keys()),
        diverges(p, servers_keys()),
        diverges(p, format_keys()),
    ensures
        merged_settings(v, java, jar) matches Some(w) ==> get_at(w, p) == get_at(v, p),
{
    if let Some(a) = set_at(v, java_path_keys(), JsonView::Text(java)) {
        lemma_set_at_keeps_others(v, java_path_keys(), JsonView::Text(java), p);
        if let Some(b) = set_at(a, arguments_keys(), arguments_value(jar)) {
            lemma_set_at_keeps_others(a, arguments_keys(), arguments_value(jar), p);
            if let Some(c) = set_at(b, servers_keys(), servers_value()) {
                lemma_set_at_keeps_others(b, servers_keys(), servers_value(), p);
                if set_at(c, format_keys(), JsonView::Text("off"@)) is Some {
                    lemma_set_at_keeps_others(c, format_keys(), JsonView::Text("off"@), p);
                }
            }
        }
    }
}

} // verus!
