use vstd::prelude::*;

use crate::level::{display_name, LevelError, LogLevel};
use crate::paint::{paint, looks, Paint};
use crate::text::{has_char, indent, indented, join};

verus! {

/// The value of an extra field of a record.
#[derive(Debug, Clone)]
pub enum FieldValue {
    /// A JSON string, with its contents.
    Text(String),
    /// Any other JSON value, held as its pretty-printed text with an
    /// indentation of two spaces.
    Json(String),
}

/// An extra field of a record: a name and its value.
#[derive(Debug, Clone)]
pub struct Field {
    pub key: String,
    pub value: FieldValue,
}

/// One parsed log record. `extras` holds every field but `time`, `level` and
/// `message`, in the order of the input.
#[derive(Debug, Clone)]
pub struct LogRecord {
    pub time: String,
    pub level: LogLevel,
    pub message: String,
    pub extras: Vec<Field>,
}

/// The texts of a sequence of strings.
pub open spec fn views(v: Seq<String>) -> Seq<Seq<char>> {
    v.map_values(|s: String| s@)
}

/// The field names that are never shown: `line`, `target`, `file`, `pid`, `name`, `host`.
pub open spec fn is_hidden(k: Seq<char>) -> bool {
    ||| k == seq!['l', 'i', 'n', 'e']
    ||| k == seq!['t', 'a', 'r', 'g', 'e', 't']
    ||| k == seq!['f', 'i', 'l', 'e']
    ||| k == seq!['p', 'i', 'd']
    ||| k == seq!['n', 'a', 'm', 'e']
    ||| k == seq!['h', 'o', 's', 't']
}

/// A string value is quoted when it is empty or holds a space.
pub open spec fn needs_quotes(s: Seq<char>) -> bool {
    s.contains(' ') || s.len() == 0
}

/// The rendering of a value: a string as it is, or in double quotes where
/// `needs_quotes` says so; any other value as its pretty-printed text.
pub open spec fn shown(v: FieldValue) -> Seq<char> {
    match v {
        FieldValue::Text(s) => if needs_quotes(s@) {
            seq!['"'] + s@ + seq!['"']
        } else {
            s@
        },
        FieldValue::Json(t) => t@,
    }
}

/// The value as a detail block shows it: a string unquoted, any other value
/// as its pretty-printed text.
pub open spec fn detail_value(v: FieldValue) -> Seq<char> {
    match v {
        FieldValue::Text(s) => s@,
        FieldValue::Json(t) => t@,
    }
}

/// A rendering is long when it holds a line break or more than 50 characters.
pub open spec fn is_long(t: Seq<char>) -> bool {
    t.contains('\n') || t.len() > 50
}

/// A field shown inside the parentheses of the main line.
pub open spec fn is_inline(f: Field) -> bool {
    !is_hidden(f.key@) && !is_long(shown(f.value))
}

/// A field shown in the detail block below the main line.
pub open spec fn is_detail(f: Field) -> bool {
    !is_hidden(f.key@) && is_long(shown(f.value))
}

/// The `key=value` items of the first `n` fields, where `keys` holds the
/// field names as they are written (possibly styled).
pub open spec fn inline_items(fs: Seq<Field>, keys: Seq<Seq<char>>, n: nat) -> Seq<Seq<char>>
    decreases n,
{
    if n == 0 {
        seq![]
    } else {
        let prev = inline_items(fs, keys, (n - 1) as nat);
        let f = fs[n - 1];
        if is_inline(f) {
            prev.push(keys[n - 1] + seq!['='] + shown(f.value))
        } else {
            prev
        }
    }
}

/// The indented `key: value` blocks of the first `n` fields.
pub open spec fn detail_items(fs: Seq<Field>, keys: Seq<Seq<char>>, n: nat) -> Seq<Seq<char>>
    decreases n,
{
    if n == 0 {
        seq![]
    } else {
        let prev = detail_items(fs, keys, (n - 1) as nat);
        let f = fs[n - 1];
        if is_detail(f) {
            prev.push(indented(keys[n - 1] + seq![':', ' '] + detail_value(f.value)))
        } else {
            prev
        }
    }
}

/// The line that separates two detail blocks.
pub open spec fn block_separator() -> Seq<char> {
    seq!['\n', ' ', ' ', ' ', ' ', '-', '-', '\n']
}

/// The text that follows the message: ` (k=v,...)` when some field is short,
/// a line break, then the detail blocks and a line break when some field is long.
pub open spec fn extras_text(fs: Seq<Field>, keys: Seq<Seq<char>>) -> Seq<char> {
    let ins = inline_items(fs, keys, fs.len());
    let ds = detail_items(fs, keys, fs.len());
    (if ins.len() > 0 {
        seq![' ', '('] + join(ins, seq![',']) + seq![')']
    } else {
        seq![]
    }) + seq!['\n'] + (if ds.len() > 0 {
        join(ds, block_separator()) + seq!['\n']
    } else {
        seq![]
    })
}

/// `[<time>] <level>: <message><extras>`.
pub open spec fn record_text(
    time: Seq<char>,
    level: Seq<char>,
    message: Seq<char>,
    fs: Seq<Field>,
    keys: Seq<Seq<char>>,
) -> Seq<char> {
    seq!['['] + time + seq![']', ' '] + level + seq![':', ' '] + message + extras_text(fs, keys)
}

/// The field names as they are.
pub open spec fn plain_keys(fs: Seq<Field>) -> Seq<Seq<char>> {
    Seq::new(fs.len(), |i: int| fs[i].key@)
}

/// Whether `keys` holds the field names, each as it may look in bold.
pub open spec fn keys_look(fs: Seq<Field>, keys: Seq<Seq<char>>, color: bool) -> bool {
    &&& keys.len() == fs.len()
    &&& forall|i: int| 0 <= i < fs.len() ==> looks(Paint::Bold, #[trigger] fs[i].key@, color, keys[i])
}

/// The style of each level's name.
pub open spec fn level_paint(l: LogLevel) -> Paint {
    match l {
        LogLevel::TRACE => Paint::White,
        LogLevel::WARN => Paint::Magenta,
        LogLevel::INFO => Paint::Cyan,
        LogLevel::FATAL => Paint::Reversed,
        LogLevel::ERROR => Paint::Red,
        LogLevel::DEBUG => Paint::Yellow,
    }
}

/// The record without any styling.
pub open spec fn plain_text(r: LogRecord) -> Seq<char> {
    record_text(r.time@, display_name(r.level), r.message@, r.extras@, plain_keys(r.extras@))
}

/// Whether `out` is what the record may look like: the level name in its
/// level's style, the message highlighted, the field names in bold.
pub open spec fn formatted(r: LogRecord, color: bool, out: Seq<char>) -> bool {
    exists|lv: Seq<char>, m: Seq<char>, keys: Seq<Seq<char>>|
        {
            &&& looks(level_paint(r.level), display_name(r.level), color, lv)
            &&& looks(Paint::Highlight, r.message@, color, m)
            &&& keys_look(r.extras@, keys, color)
            &&& out == #[trigger] record_text(r.time@, lv, m, r.extras@, keys)
        }
}

proof fn lemma_join_push(items: Seq<Seq<char>>, sep: Seq<char>, x: Seq<char>)
    ensures
        join(items.push(x), sep) == if items.len() == 0 {
            x
        } else {
            join(items, sep) + sep + x
        },
{
    assert(items.push(x).drop_last() =~= items);
}

fn is_hidden_key(k: &String) -> (r: bool)
    ensures
        r == is_hidden(k@),
{
    let line = *k == String::from_str("line");
    let target = *k == String::from_str("target");
    let file = *k == String::from_str("file");
    let pid = *k == String::from_str("pid");
    let name = *k == String::from_str("name");
    let host = *k == String::from_str("host");
    proof {
        reveal_strlit("line");
        reveal_strlit("target");
        reveal_strlit("file");
        reveal_strlit("pid");
        reveal_strlit("name");
        reveal_strlit("host");
        assert("line"@ =~= seq!['l', 'i', 'n', 'e']);
        assert("target"@ =~= seq!['t', 'a', 'r', 'g', 'e', 't']);
        assert("file"@ =~= seq!['f', 'i', 'l', 'e']);
        assert("pid"@ =~= seq!['p', 'i', 'd']);
        assert("name"@ =~= seq!['n', 'a', 'm', 'e']);
        assert("host"@ =~= seq!['h', 'o', 's', 't']);
    }
    line || target || file || pid || name || host
}

fn is_long_text(t: &String) -> (r: bool)
    ensures
        r == is_long(t@),
{
    let cs = crate::text::chars_of(t.as_str());
    has_char(&cs, '\n') || cs.len() > 50
}

fn shown_value(v: &FieldValue) -> (r: String)
    ensures
        r@ == shown(*v),
{
    match v {
        FieldValue::Text(s) => {
            let cs = crate::text::chars_of(s.as_str());
            if has_char(&cs, ' ') || cs.len() == 0 {
                let mut q = String::from_str("\"");
                q.append(s.as_str());
                q.append("\"");
                proof {
                    reveal_strlit("\"");
                    assert(q@ =~= seq!['"'] + s@ + seq!['"']);
                }
                q
            } else {
                s.clone()
            }
        },
        FieldValue::Json(t) => t.clone(),
    }
}

fn detail_value_text(v: &FieldValue) -> (r: &String)
    ensures
        r@ == detail_value(*v),
{
    match v {
        FieldValue::Text(s) => s,
        FieldValue::Json(t) => t,
    }
}

/// Lays out the extra fields, with `keys` holding the field names as they are
/// to be written.
pub fn layout_extras(extra_fields: &Vec<Field>, keys: &Vec<String>) -> (r: String)
    requires
        keys@.len() == extra_fields@.len(),
    ensures
        r@ == extras_text(extra_fields@, views(keys@)),
{
    let ghost fs = extra_fields@;
    let ghost ks = views(keys@);
    let mut inline = String::new();
    let mut n_inline: usize = 0;
    let mut details = String::new();
    let mut n_details: usize = 0;
    let mut i: usize = 0;
    while i < extra_fields.len()
        invariant
            fs == extra_fields@,
            ks == views(keys@),
            keys@.len() == fs.len(),
            0 <= i <= fs.len(),
            n_inline as nat == inline_items(fs, ks, i as nat).len(),
            n_inline > 0 ==> inline@ == join(inline_items(fs, ks, i as nat), seq![',']),
            n_details as nat == detail_items(fs, ks, i as nat).len(),
            n_details > 0 ==> details@ == join(detail_items(fs, ks, i as nat), block_separator()),
            n_inline == 0 ==> inline@ == Seq::<char>::empty(),
            n_details == 0 ==> details@ == Seq::<char>::empty(),
            n_inline <= i,
            n_details <= i,
        decreases fs.len() - i,
    {
        let f = &extra_fields[i];
        let ghost prev_inline = inline_items(fs, ks, i as nat);
        let ghost prev_details = detail_items(fs, ks, i as nat);
        let ghost old_inline = inline@;
        let ghost old_details = details@;
        assert(ks[i as int] == keys@[i as int]@);
        if !is_hidden_key(&f.key) {
            let shown_text = shown_value(&f.value);
            if is_long_text(&shown_text) {
                let mut entry = keys[i].clone();
                entry.append(": ");
                entry.append(detail_value_text(&f.value).as_str());
                let block = indent(entry.as_str());
                let ghost item = indented(ks[i as int] + seq![':', ' '] + detail_value(f.value));
                proof {
                    reveal_strlit(": ");
                    assert(entry@ =~= ks[i as int] + seq![':', ' '] + detail_value(f.value));
                }
                assert(detail_items(fs, ks, (i + 1) as nat) == prev_details.push(item));
                proof {
                    lemma_join_push(prev_details, block_separator(), item);
                }
                if n_details > 0 {
                    details.append("\n    --\n");
                    proof {
                        reveal_strlit("\n    --\n");
                        assert("\n    --\n"@ =~= block_separator());
                    }
                }
                details.append(block.as_str());
                proof {
                    if n_details > 0 {
                        assert(details@ =~= old_details + block_separator() + item);
                    } else {
                        assert(details@ =~= item);
                    }
                }
                n_details = n_details + 1;
            } else {
                let mut entry = keys[i].clone();
                entry.append("=");
                entry.append(shown_text.as_str());
                let ghost item = ks[i as int] + seq!['='] + shown(f.value);
                proof {
                    reveal_strlit("=");
                    assert(entry@ =~= item);
                }
                assert(inline_items(fs, ks, (i + 1) as nat) == prev_inline.push(item));
                proof {
                    lemma_join_push(prev_inline, seq![','], item);
                }
                if n_inline > 0 {
                    inline.append(",");
                    proof {
                        reveal_strlit(",");
                        assert(","@ =~= seq![',']);
                    }
                }
                inline.append(entry.as_str());
                proof {
                    if n_inline > 0 {
                        assert(inline@ =~= old_inline + seq![','] + item);
                    } else {
                        assert(inline@ =~= item);
                    }
                }
                n_inline = n_inline + 1;
            }
        }
        i = i + 1;
    }
    let mut r = String::new();
    if n_inline > 0 {
        r.append(" (");
        r.append(inline.as_str());
        r.append(")");
    }
    r.append("\n");
    if n_details > 0 {
        r.append(details.as_str());
        r.append("\n");
    }
    proof {
        reveal_strlit(" (");
        reveal_strlit(")");
        reveal_strlit("\n");
        assert(fs.len() == i);
        assert(r@ =~= extras_text(fs, ks));
    }
    r
}

/// Lays out the extra fields, with their names in bold where `color` asks for it.
pub fn format_extras(extra_fields: &Vec<Field>, color: bool) -> (r: String)
    ensures
        exists|keys: Seq<Seq<char>>|
            #[trigger] keys_look(extra_fields@, keys, color) && r@ == extras_text(extra_fields@, keys),
        !color ==> r@ == extras_text(extra_fields@, plain_keys(extra_fields@)),
{
    let mut keys: Vec<String> = Vec::new();
    let mut i: usize = 0;
    while i < extra_fields.len()
        invariant
            0 <= i <= extra_fields@.len(),
            keys@.len() == i,
            forall|j: int|
                0 <= j < i ==> looks(Paint::Bold, extra_fields@[j].key@, color, #[trigger] keys@[j]@),
        decreases extra_fields@.len() - i,
    {
        let k = paint(extra_fields[i].key.as_str(), Paint::Bold, color);
        keys.push(k);
        i = i + 1;
    }
    let r = layout_extras(extra_fields, &keys);
    proof {
        let ks = views(keys@);
        assert(forall|j: int| 0 <= j < ks.len() ==> ks[j] == keys@[j]@);
        assert(keys_look(extra_fields@, ks, color));
        if !color {
            assert(ks =~= plain_keys(extra_fields@));
        }
    }
    r
}

/// The level's display name in its style: fatal reversed, error red, warn
/// magenta, info cyan, debug yellow, trace white.
pub fn format_level(level: LogLevel, color: bool) -> (r: String)
    ensures
        looks(level_paint(level), display_name(level), color, r@),
        !color ==> r@ == display_name(level),
{
    let name = level.name();
    let p = match level {
        LogLevel::TRACE => Paint::White,
        LogLevel::WARN => Paint::Magenta,
        LogLevel::INFO => Paint::Cyan,
        LogLevel::FATAL => Paint::Reversed,
        LogLevel::ERROR => Paint::Red,
        LogLevel::DEBUG => Paint::Yellow,
    };
    paint(name.as_str(), p, color)
}

impl LogRecord {
    /// Builds a record from its parts, reading the level from its name in
    /// any letter casing.
    pub fn new(time: String, level: &str, message: String, extras: Vec<Field>) -> (r: Result<
        LogRecord,
        LevelError,
    >)
        ensures
            match r {
                Ok(rec) => {
                    &&& crate::level::level_named(level@) == Some(rec.level)
                    &&& rec.time == time
                    &&& rec.message == message
                    &&& rec.extras == extras
                },
                Err(e) => crate::level::level_named(level@).is_none() && e.value@ == level@,
            },
    {
        match LogLevel::parse(level) {
            Ok(l) => Ok(LogRecord { time, level: l, message, extras }),
            Err(e) => Err(e),
        }
    }

    /// The record as text: `[<time>] <LEVEL>: <message>`, then the extra
    /// fields (see `format_extras`). Without `color` the text holds no styling.
    pub fn format(&self, color: bool) -> (r: String)
        ensures
            formatted(*self, color, r@),
            !color ==> r@ == plain_text(*self),
    {
        let level = format_level(self.level, color);
        let message = paint(self.message.as_str(), Paint::Highlight, color);
        let extras = format_extras(&self.extras, color);
        let mut r = String::from_str("[");
        r.append(self.time.as_str());
        r.append("] ");
        r.append(level.as_str());
        r.append(": ");
        r.append(message.as_str());
        r.append(extras.as_str());
        proof {
            reveal_strlit("[");
            reveal_strlit("] ");
            reveal_strlit(": ");
            let keys = choose|keys: Seq<Seq<char>>|
                #[trigger] keys_look(self.extras@, keys, color) && extras@ == extras_text(
                    self.extras@,
                    keys,
                );
            assert(r@ =~= record_text(self.time@, level@, message@, self.extras@, keys));
            assert(formatted(*self, color, r@));
            if !color {
                assert(r@ =~= plain_text(*self));
            }
        }
        r
    }
}

proof fn lemma_inline_has(fs: Seq<Field>, keys: Seq<Seq<char>>, i: int, n: nat)
    requires
        0 <= i < n <= fs.len(),
        is_inline(fs[i]),
    ensures
        inline_items(fs, keys, n).contains(keys[i] + seq!['='] + shown(fs[i].value)),
    decreases n,
{
    let item = keys[i] + seq!['='] + shown(fs[i].value);
    let prev = inline_items(fs, keys, (n - 1) as nat);
    if i == n - 1 {
        assert(prev.push(item)[prev.len() as int] == item);
    } else {
        lemma_inline_has(fs, keys, i, (n - 1) as nat);
        let k = choose|k: int| 0 <= k < prev.len() && prev[k] == item;
        if is_inline(fs[n - 1]) {
            let next = prev.push(keys[n - 1] + seq!['='] + shown(fs[n - 1].value));
            assert(next[k] == item);
        }
    }
}

proof fn lemma_detail_has(fs: Seq<Field>, keys: Seq<Seq<char>>, i: int, n: nat)
    requires
        0 <= i < n <= fs.len(),
        is_detail(fs[i]),
    ensures
        detail_items(fs, keys, n).contains(
            indented(keys[i] + seq![':', ' '] + detail_value(fs[i].value)),
        ),
    decreases n,
{
    let item = indented(keys[i] + seq![':', ' '] + detail_value(fs[i].value));
    let prev = detail_items(fs, keys, (n - 1) as nat);
    if i == n - 1 {
        assert(prev.push(item)[prev.len() as int] == item);
    } else {
        lemma_detail_has(fs, keys, i, (n - 1) as nat);
        let k = choose|k: int| 0 <= k < prev.len() && prev[k] == item;
        if is_detail(fs[n - 1]) {
            let next = prev.push(
                indented(keys[n - 1] + seq![':', ' '] + detail_value(fs[n - 1].value)),
            );
            assert(next[k] == item);
        }
    }
}

proof fn lemma_inline_origin(fs: Seq<Field>, keys: Seq<Seq<char>>, n: nat, k: int) -> (j: int)
    requires
        n <= fs.len(),
        0 <= k < inline_items(fs, keys, n).len(),
    ensures
        0 <= j < n,
        is_inline(fs[j]),
        inline_items(fs, keys, n)[k] == keys[j] + seq!['='] + shown(fs[j].value),
    decreases n,
{
    let prev = inline_items(fs, keys, (n - 1) as nat);
    if k < prev.len() {
        lemma_inline_origin(fs, keys, (n - 1) as nat, k)
    } else {
        (n - 1) as int
    }
}

proof fn lemma_detail_origin(fs: Seq<Field>, keys: Seq<Seq<char>>, n: nat, k: int) -> (j: int)
    requires
        n <= fs.len(),
        0 <= k < detail_items(fs, keys, n).len(),
    ensures
        0 <= j < n,
        is_detail(fs[j]),
        detail_items(fs, keys, n)[k] == indented(keys[j] + seq![':', ' '] + detail_value(fs[j].value)),
    decreases n,
{
    let prev = detail_items(fs, keys, (n - 1) as nat);
    if k < prev.len() {
        lemma_detail_origin(fs, keys, (n - 1) as nat, k)
    } else {
        (n - 1) as int
    }
}

/// A string value with no space, no line break and 1 to 50 characters is
/// shown unquoted as `key=value` inside the parentheses.
pub proof fn lemma_plain_string_inline(fs: Seq<Field>, keys: Seq<Seq<char>>, i: int, s: String)
    requires
        0 <= i < fs.len(),
        !is_hidden(fs[i].key@),
        fs[i].value == FieldValue::Text(s),
        !s@.contains(' '),
        !s@.contains('\n'),
        0 < s@.len() <= 50,
    ensures
        inline_items(fs, keys, fs.len()).contains(keys[i] + seq!['='] + s@),
{
    lemma_inline_has(fs, keys, i, fs.len());
}

/// A string value that holds a space, but no line break, and is at most 48
/// characters long is shown in double quotes as `key="value"` inside the
/// parentheses.
pub proof fn lemma_spaced_string_quoted(fs: Seq<Field>, keys: Seq<Seq<char>>, i: int, s: String)
    requires
        0 <= i < fs.len(),
        !is_hidden(fs[i].key@),
        fs[i].value == FieldValue::Text(s),
        s@.contains(' '),
        !s@.contains('\n'),
        s@.len() <= 48,
    ensures
        inline_items(fs, keys, fs.len()).contains(keys[i] + seq!['='] + seq!['"'] + s@ + seq!['"']),
{
    let q = seq!['"'] + s@ + seq!['"'];
    if q.contains('\n') {
        let k = choose|k: int| 0 <= k < q.len() && q[k] == '\n';
        assert(s@[k - 1] == '\n');
    }
    lemma_inline_has(fs, keys, i, fs.len());
    assert(keys[i] + seq!['='] + q =~= keys[i] + seq!['='] + seq!['"'] + s@ + seq!['"']);
}

/// A field shown in the detail block appears there as its indented
/// `key: value` block, and nothing inside the parentheses comes from it.
pub proof fn lemma_long_field_in_detail(fs: Seq<Field>, keys: Seq<Seq<char>>, i: int)
    requires
        0 <= i < fs.len(),
        is_detail(fs[i]),
    ensures
        detail_items(fs, keys, fs.len()).contains(
            indented(keys[i] + seq![':', ' '] + detail_value(fs[i].value)),
        ),
        forall|k: int|
            #![trigger inline_items(fs, keys, fs.len())[k]]
            0 <= k < inline_items(fs, keys, fs.len()).len() ==> exists|j: int|
                #![trigger fs[j]]
                0 <= j < fs.len() && j != i && inline_items(fs, keys, fs.len())[k] == keys[j]
                    + seq!['='] + shown(fs[j].value),
{
    lemma_detail_has(fs, keys, i, fs.len());
    assert forall|k: int| #![trigger inline_items(fs, keys, fs.len())[k]] 0 <= k < inline_items(fs, keys, fs.len()).len() implies exists|j: int|
        #![trigger fs[j]]
        0 <= j < fs.len() && j != i && inline_items(fs, keys, fs.len())[k] == keys[j] + seq!['='] + shown(fs[j].value) by {
        let j = lemma_inline_origin(fs, keys, fs.len(), k);
        assert(fs[j] != fs[i] || j != i);
    }
}

/// A string value longer than 50 characters, or holding a line break, is
/// shown unquoted in the detail block and not inside the parentheses.
pub proof fn lemma_long_string_in_detail(fs: Seq<Field>, keys: Seq<Seq<char>>, i: int, s: String)
    requires
        0 <= i < fs.len(),
        !is_hidden(fs[i].key@),
        fs[i].value == FieldValue::Text(s),
        s@.len() > 50 || s@.contains('\n'),
    ensures
        detail_items(fs, keys, fs.len()).contains(indented(keys[i] + seq![':', ' '] + s@)),
        forall|k: int|
            #![trigger inline_items(fs, keys, fs.len())[k]]
            0 <= k < inline_items(fs, keys, fs.len()).len() ==> exists|j: int|
                #![trigger fs[j]]
                0 <= j < fs.len() && j != i && inline_items(fs, keys, fs.len())[k] == keys[j]
                    + seq!['='] + shown(fs[j].value),
{
    let q = seq!['"'] + s@ + seq!['"'];
    if s@.contains('\n') {
        let k = choose|k: int| 0 <= k < s@.len() && s@[k] == '\n';
        assert(q[k + 1] == '\n');
    }
    assert(is_detail(fs[i]));
    lemma_long_field_in_detail(fs, keys, i);
}

/// A value that is not a string and whose pretty-printed text spans several
/// lines (an object or an array with members) is shown as that text in the
/// detail block and not inside the parentheses.
pub proof fn lemma_multiline_json_in_detail(fs: Seq<Field>, keys: Seq<Seq<char>>, i: int, t: String)
    requires
        0 <= i < fs.len(),
        !is_hidden(fs[i].key@),
        fs[i].value == FieldValue::Json(t),
        t@.contains('\n'),
    ensures
        detail_items(fs, keys, fs.len()).contains(indented(keys[i] + seq![':', ' '] + t@)),
        forall|k: int|
            #![trigger inline_items(fs, keys, fs.len())[k]]
            0 <= k < inline_items(fs, keys, fs.len()).len() ==> exists|j: int|
                #![trigger fs[j]]
                0 <= j < fs.len() && j != i && inline_items(fs, keys, fs.len())[k] == keys[j]
                    + seq!['='] + shown(fs[j].value),
{
    lemma_long_field_in_detail(fs, keys, i);
}

/// The fields `pid`, `host`, `file`, `line`, `target` and `name` are shown
/// nowhere: no item inside the parentheses and no detail block comes from one.
pub proof fn lemma_hidden_field_not_shown(fs: Seq<Field>, keys: Seq<Seq<char>>, i: int)
    requires
        0 <= i < fs.len(),
        is_hidden(fs[i].key@),
    ensures
        forall|k: int|
            #![trigger inline_items(fs, keys, fs.len())[k]]
            0 <= k < inline_items(fs, keys, fs.len()).len() ==> exists|j: int|
                #![trigger fs[j]]
                0 <= j < fs.len() && j != i && inline_items(fs, keys, fs.len())[k] == keys[j]
                    + seq!['='] + shown(fs[j].value),
        forall|k: int|
            #![trigger detail_items(fs, keys, fs.len())[k]]
            0 <= k < detail_items(fs, keys, fs.len()).len() ==> exists|j: int|
                #![trigger fs[j]]
                0 <= j < fs.len() && j != i && detail_items(fs, keys, fs.len())[k] == indented(
                    keys[j] + seq![':', ' '] + detail_value(fs[j].value),
                ),
{
    assert forall|k: int| #![trigger inline_items(fs, keys, fs.len())[k]] 0 <= k < inline_items(fs, keys, fs.len()).len() implies exists|j: int|
        #![trigger fs[j]]
        0 <= j < fs.len() && j != i && inline_items(fs, keys, fs.len())[k] == keys[j] + seq!['='] + shown(fs[j].value) by {
        let j = lemma_inline_origin(fs, keys, fs.len(), k);
        assert(fs[j] != fs[i] || j != i);
    }
    assert forall|k: int| #![trigger detail_items(fs, keys, fs.len())[k]] 0 <= k < detail_items(fs, keys, fs.len()).len() implies exists|j: int|
        #![trigger fs[j]]
        0 <= j < fs.len() && j != i && detail_items(fs, keys, fs.len())[k] == indented(keys[j] + seq![':', ' '] + detail_value(fs[j].value)) by {
        let j = lemma_detail_origin(fs, keys, fs.len(), k);
        assert(fs[j] != fs[i] || j != i);
    }
}

proof fn lemma_remove_hidden_items(fs: Seq<Field>, keys: Seq<Seq<char>>, i: int, n: nat)
    requires
        0 <= i < fs.len(),
        keys.len() == fs.len(),
        is_hidden(fs[i].key@),
        n <= fs.len(),
    ensures
        n <= i ==> inline_items(fs.remove(i), keys.remove(i), n) == inline_items(fs, keys, n),
        n <= i ==> detail_items(fs.remove(i), keys.remove(i), n) == detail_items(fs, keys, n),
        n > i ==> inline_items(fs.remove(i), keys.remove(i), (n - 1) as nat) == inline_items(
            fs,
            keys,
            n,
        ),
        n > i ==> detail_items(fs.remove(i), keys.remove(i), (n - 1) as nat) == detail_items(
            fs,
            keys,
            n,
        ),
    decreases n,
{
    let gs = fs.remove(i);
    let ks = keys.remove(i);
    if n == 0 {
    } else if n <= i {
        lemma_remove_hidden_items(fs, keys, i, (n - 1) as nat);
        assert(gs[n - 1] == fs[n - 1]);
        assert(ks[n - 1] == keys[n - 1]);
    } else if n == i + 1 {
        lemma_remove_hidden_items(fs, keys, i, i as nat);
    } else {
        lemma_remove_hidden_items(fs, keys, i, (n - 1) as nat);
        assert(gs[n - 2] == fs[n - 1]);
        assert(ks[n - 2] == keys[n - 1]);
    }
}

/// Leaving out a field named `pid`, `host`, `file`, `line`, `target` or
/// `name` (with its written name) leaves the text of the extra fields as it
/// was, whatever its value; so does leaving it out of plain field names.
pub proof fn lemma_hidden_field_removable(fs: Seq<Field>, keys: Seq<Seq<char>>, i: int)
    requires
        0 <= i < fs.len(),
        keys.len() == fs.len(),
        is_hidden(fs[i].key@),
    ensures
        extras_text(fs.remove(i), keys.remove(i)) == extras_text(fs, keys),
        extras_text(fs.remove(i), plain_keys(fs.remove(i))) == extras_text(fs, plain_keys(fs)),
{
    lemma_remove_hidden_items(fs, keys, i, fs.len());
    lemma_remove_hidden_items(fs, plain_keys(fs), i, fs.len());
    assert(plain_keys(fs.remove(i)) =~= plain_keys(fs).remove(i));
}

} // verus!
