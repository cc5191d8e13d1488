use vstd::prelude::*;

verus! {

/// One entry of a command line's "command" array, reduced to what the
/// protocol reads: a string's bytes, a number's decimal text, or an opaque
/// marker for every other JSON value.
pub enum JsonItem {
    Str(Vec<u8>),
    Num(Vec<u8>),
    Other,
}

/// The mathematical shadow of a `JsonItem`.
pub enum ItemModel {
    Str(Seq<u8>),
    Num(Seq<u8>),
    Other,
}

pub open spec fn item_model(it: JsonItem) -> ItemModel {
    match it {
        JsonItem::Str(b) => ItemModel::Str(b@),
        JsonItem::Num(b) => ItemModel::Num(b@),
        JsonItem::Other => ItemModel::Other,
    }
}

pub open spec fn items_model(r: Option<Vec<JsonItem>>) -> Option<Seq<ItemModel>> {
    match r {
        Option::Some(v) => Option::Some(v@.map(|i: int, it: JsonItem| item_model(it))),
        Option::None => Option::None,
    }
}

/// What parsing one command-channel line yields: `None` when the line is
/// not a JSON object with a "command" array, otherwise that array's
/// entries. A pure function of the line's bytes; serde_json computes it.
pub uninterp spec fn ipc_items_of(line: Seq<u8>) -> Option<Seq<ItemModel>>;

/// Relies on serde_json: `from_str` parses the line as JSON (leading and
/// trailing whitespace included), `Value::get` and `Value::as_array` pick
/// out the "command" array, and each entry comes back as its string bytes,
/// its number's decimal text (`Number::to_string`), or an opaque marker.
/// The outcome depends on the line's bytes alone.
#[verifier::external_body]
fn json_command_items(line: &[u8]) -> (r: Option<Vec<JsonItem>>)
    ensures
        items_model(r) == ipc_items_of(line@),
{
    let text = match core::str::from_utf8(line) { Ok(t) => t, Err(_) => return None };
    let value: serde_json::Value = match serde_json::from_str(text) { Ok(v) => v, Err(_) => return None };
    let entries = match value.get("command").and_then(serde_json::Value::as_array) {
        Some(a) => a,
        None => return None,
    };
    Some(entries.iter().map(|entry| match entry {
        serde_json::Value::String(s) => JsonItem::Str(s.as_bytes().to_vec()),
        serde_json::Value::Number(num) => JsonItem::Num(num.to_string().into_bytes()),
        _ => JsonItem::Other,
    }).collect())
}

pub open spec fn is_digit(b: u8) -> bool {
    48 <= b && b <= 57
}

pub open spec fn all_digits(s: Seq<u8>) -> bool {
    forall|i: int| 0 <= i < s.len() ==> is_digit(s[i])
}

/// The number a digit string denotes, most significant digit first.
pub open spec fn digits_val(s: Seq<u8>) -> int
    decreases s.len(),
{
    if s.len() == 0 {
        0
    } else {
        digits_val(s.drop_last()) * 10 + (s.last() - 48)
    }
}

pub open spec fn pow10(k: nat) -> int
    decreases k,
{
    if k == 0 { 1 } else { 10 * pow10((k - 1) as nat) }
}

/// The index of the first `.` in the string, or its length if there is
/// none.
pub open spec fn find_dot(s: Seq<u8>) -> int
    decreases s.len(),
{
    if s.len() == 0 {
        0
    } else if s[0] == 46 {
        0
    } else {
        1 + find_dot(s.skip(1))
    }
}

/// The fractional digits' value in thousandths: the first three digits,
/// rounded half-up by the fourth.
pub open spec fn frac_millis(fp: Seq<u8>) -> int {
    let d0: int = if fp.len() >= 1 { fp[0] - 48 } else { 0 };
    let d1: int = if fp.len() >= 2 { fp[1] - 48 } else { 0 };
    let d2: int = if fp.len() >= 3 { fp[2] - 48 } else { 0 };
    let carry: int = if fp.len() >= 4 && fp[3] >= 53 { 1 } else { 0 };
    d0 * 100 + d1 * 10 + d2 + carry
}

/// The value of an unsigned decimal string in thousandths: digits, with an
/// optional fraction after one `.`. `None` for anything else, and for more
/// than 13 integer digits, which is past the range a speed could use.
pub open spec fn spec_parse_unsigned_millis(t: Seq<u8>) -> Option<int> {
    let p = find_dot(t);
    if p == t.len() {
        if 1 <= t.len() <= 13 && all_digits(t) {
            Option::Some(digits_val(t) * 1000)
        } else {
            Option::None
        }
    } else {
        let ip = t.take(p);
        let fp = t.skip(p + 1);
        if 1 <= ip.len() <= 13 && all_digits(ip) && 1 <= fp.len() && all_digits(fp) {
            Option::Some(digits_val(ip) * 1000 + frac_millis(fp))
        } else {
            Option::None
        }
    }
}

/// The value of a decimal string in thousandths, with an optional leading
/// minus sign.
pub open spec fn spec_parse_millis(s: Seq<u8>) -> Option<int> {
    if s.len() >= 1 && s[0] == 45 {
        match spec_parse_unsigned_millis(s.skip(1)) {
            Option::Some(m) => Option::Some(-m),
            Option::None => Option::None,
        }
    } else {
        spec_parse_unsigned_millis(s)
    }
}

proof fn lemma_find_dot_le(s: Seq<u8>)
    ensures
        0 <= find_dot(s) <= s.len(),
    decreases s.len(),
{
    if s.len() != 0 && s[0] != 46 {
        lemma_find_dot_le(s.skip(1));
    }
}

proof fn lemma_find_dot_exact(s: Seq<u8>, k: int)
    requires
        0 <= k <= s.len(),
        forall|j: int| 0 <= j < k ==> s[j] != 46,
        k < s.len() ==> s[k] == 46,
    ensures
        find_dot(s) == k,
    decreases k,
{
    if k == 0 {
    } else {
        lemma_find_dot_exact(s.skip(1), k - 1);
    }
}

proof fn lemma_find_dot_lower(s: Seq<u8>, k: int)
    requires
        0 <= k <= s.len(),
        forall|j: int| 0 <= j < k ==> s[j] != 46,
    ensures
        find_dot(s) >= k,
    decreases k,
{
    if k > 0 {
        assert(s[0] != 46);
        lemma_find_dot_lower(s.skip(1), k - 1);
        assert(find_dot(s) == 1 + find_dot(s.skip(1)));
    } else {
        lemma_find_dot_le(s);
    }
}

proof fn lemma_pow10_pos(k: nat)
    ensures
        pow10(k) >= 1,
    decreases k,
{
    if k > 0 {
        lemma_pow10_pos((k - 1) as nat);
    }
}

proof fn lemma_pow10_mono(a: nat, b: nat)
    requires
        a <= b,
    ensures
        pow10(a) <= pow10(b),
    decreases b,
{
    lemma_pow10_pos(a);
    if a < b {
        lemma_pow10_mono(a, (b - 1) as nat);
    }
}

proof fn lemma_pow10_13()
    ensures
        pow10(13) == 10_000_000_000_000,
{
    assert(pow10(0) == 1);
    assert(pow10(1) == 10);
    assert(pow10(2) == 100);
    assert(pow10(3) == 1000);
    assert(pow10(4) == 10_000);
    assert(pow10(5) == 100_000);
    assert(pow10(6) == 1_000_000);
    assert(pow10(7) == 10_000_000);
    assert(pow10(8) == 100_000_000);
    assert(pow10(9) == 1_000_000_000);
    assert(pow10(10) == 10_000_000_000);
    assert(pow10(11) == 100_000_000_000);
    assert(pow10(12) == 1_000_000_000_000);
}

/// The first index at or past `from` that does not hold an ASCII digit, or
/// the end of the buffer.
fn scan_digits(d: &Vec<u8>, from: usize) -> (end: usize)
    requires
        from <= d@.len(),
    ensures
        from <= end <= d@.len(),
        forall|j: int| from <= j < end ==> is_digit(d@[j]),
        end < d@.len() ==> !is_digit(d@[end as int]),
{
    let mut i = from;
    while i < d.len()
        invariant
            from <= i <= d@.len(),
            forall|j: int| from <= j < i ==> is_digit(d@[j]),
        decreases d@.len() - i,
    {
        let b = d[i];
        if b < 48 || b > 57 {
            return i;
        }
        i = i + 1;
    }
    i
}

/// Reads a decimal string as a whole number of thousandths, returning
/// `None` for anything that is not a plain signed decimal or whose integer
/// part runs past 13 digits.
#[verifier::rlimit(80)]
pub fn parse_decimal_millis(d: &Vec<u8>) -> (r: Option<i64>)
    ensures
        opt_millis(r) == spec_parse_millis(d@),
{
    let len = d.len();
    let neg = len > 0 && d[0] == 45;
    let start: usize = if neg { 1 } else { 0 };
    let ghost t: Seq<u8> = if neg { d@.skip(1) } else { d@ };
    assert(t.len() == len - start);
    assert(forall|j: int| 0 <= j < t.len() ==> t[j] == d@[j + start]);

    let ie = scan_digits(d, start);
    let count = ie - start;
    proof {
        assert forall|j: int| 0 <= j < count implies is_digit(t[j]) by {
            assert(t[j] == d@[j + start]);
            assert(is_digit(d@[j + start]));
        }
        assert forall|j: int| 0 <= j < count implies t[j] != 46 by {
            assert(is_digit(t[j]));
        }
    }
    if count == 0 {
        proof {
            if start < len {
                if d@[start as int] == 46 {
                    lemma_find_dot_exact(t, 0);
                } else {
                    lemma_find_dot_lower(t, 1);
                    lemma_find_dot_le(t);
                    let p = find_dot(t);
                    assert(t[0] == d@[start as int]);
                    assert(!is_digit(t[0]));
                    if p < t.len() as int {
                        assert(t.take(p)[0] == t[0]);
                        assert(!all_digits(t.take(p)));
                    } else {
                        assert(!all_digits(t));
                    }
                }
            }
        }
        return Option::None;
    }
    if count > 13 {
        proof {
            lemma_find_dot_lower(t, 14);
            lemma_find_dot_le(t);
        }
        return Option::None;
    }

    let mut ival: u64 = 0;
    let mut i = start;
    while i < ie
        invariant
            start <= i <= ie <= len,
            len == d@.len(),
            ie - start <= 13,
            t.len() == len - start,
            forall|j: int| 0 <= j < t.len() ==> t[j] == d@[j + start],
            forall|j: int| start <= j < ie ==> is_digit(d@[j]),
            ival == digits_val(t.take(i - start)),
            ival < pow10((i - start) as nat),
        decreases ie - i,
    {
        let b = d[i];
        proof {
            lemma_pow10_mono((i - start) as nat, 12);
            lemma_pow10_13();
            assert(pow10(13) == 10 * pow10(12));
            assert(t.take(i + 1 - start).drop_last() =~= t.take(i - start));
            assert(t.take(i + 1 - start).last() == d@[i as int]);
        }
        ival = ival * 10 + ((b - 48) as u64);
        i = i + 1;
    }
    proof {
        lemma_pow10_mono(count as nat, 13);
        lemma_pow10_13();
    }

    if ie == len {
        proof {
            lemma_find_dot_exact(t, t.len() as int);
            assert(t.take(count as int) =~= t);
        }
        let m = ival * 1000;
        let m_signed = m as i64;
        if neg {
            return Option::Some(-m_signed);
        } else {
            return Option::Some(m_signed);
        }
    }

    let sep = d[ie];
    if sep != 46 {
        proof {
            lemma_find_dot_lower(t, count + 1);
            lemma_find_dot_le(t);
            let p = find_dot(t);
            assert(t[count as int] == d@[ie as int]);
            assert(!is_digit(t[count as int]));
            if p < t.len() as int {
                assert(t.take(p)[count as int] == t[count as int]);
                assert(!all_digits(t.take(p)));
            } else {
                assert(!all_digits(t));
            }
        }
        return Option::None;
    }
    proof {
        lemma_find_dot_exact(t, count as int);
    }
    let fstart = ie + 1;
    if fstart >= len {
        return Option::None;
    }
    let fe = scan_digits(d, fstart);
    let ghost fp = t.skip(count + 1);
    assert(fp.len() == len - fstart);
    assert(forall|j: int| 0 <= j < fp.len() ==> fp[j] == d@[j + fstart]);
    if fe < len {
        assert(fp[fe - fstart] == d@[fe as int]);
        assert(!is_digit(fp[fe - fstart]));
        assert(!all_digits(fp));
        return Option::None;
    }
    proof {
        assert forall|j: int| 0 <= j < fp.len() implies is_digit(fp[j]) by {
            assert(fp[j] == d@[j + fstart]);
            assert(is_digit(d@[j + fstart]));
        }
    }

    let mut f3: u64 = ((d[fstart] - 48) as u64) * 100;
    if fstart + 1 < len {
        f3 = f3 + ((d[fstart + 1] - 48) as u64) * 10;
    }
    if fstart + 2 < len {
        f3 = f3 + ((d[fstart + 2] - 48) as u64);
    }
    if fstart + 3 < len && d[fstart + 3] >= 53 {
        f3 = f3 + 1;
    }
    assert(f3 == frac_millis(fp));
    assert(t.take(count as int) =~= d@.subrange(start as int, ie as int));
    let m = ival * 1000 + f3;
    let m_signed = m as i64;
    if neg {
        Option::Some(-m_signed)
    } else {
        Option::Some(m_signed)
    }
}

pub open spec fn opt_millis(r: Option<i64>) -> Option<int> {
    match r {
        Option::Some(v) => Option::Some(v as int),
        Option::None => Option::None,
    }
}

/// The bytes of the literal "set_property".
pub open spec fn spec_set_property() -> Seq<u8> {
    seq![115u8, 101u8, 116u8, 95u8, 112u8, 114u8, 111u8, 112u8, 101u8, 114u8, 116u8, 121u8]
}

/// The bytes of the literal "speed".
pub open spec fn spec_speed_prop() -> Seq<u8> {
    seq![115u8, 112u8, 101u8, 101u8, 100u8]
}

fn is_set_property(b: &Vec<u8>) -> (r: bool)
    ensures
        r == (b@ == spec_set_property()),
{
    let r = b.len() == 12 && b[0] == 115 && b[1] == 101 && b[2] == 116 && b[3] == 95
        && b[4] == 112 && b[5] == 114 && b[6] == 111 && b[7] == 112 && b[8] == 101
        && b[9] == 114 && b[10] == 116 && b[11] == 121;
    proof {
        if r {
            assert(b@ =~= spec_set_property());
        }
    }
    r
}

fn is_speed_prop(b: &Vec<u8>) -> (r: bool)
    ensures
        r == (b@ == spec_speed_prop()),
{
    let r = b.len() == 5 && b[0] == 115 && b[1] == 112 && b[2] == 101 && b[3] == 101
        && b[4] == 100;
    proof {
        if r {
            assert(b@ =~= spec_speed_prop());
        }
    }
    r
}

/// The one interpreted command: a "command" array whose first two entries
/// are the strings "set_property" and "speed" and whose third is a number
/// this crate can hold. Everything else means no change.
pub open spec fn spec_speed_of_items(items: Option<Seq<ItemModel>>) -> Option<int> {
    match items {
        Option::None => Option::None,
        Option::Some(it) => {
            if it.len() >= 3 && it[0] == ItemModel::Str(spec_set_property())
                && it[1] == ItemModel::Str(spec_speed_prop()) {
                match it[2] {
                    ItemModel::Num(digits) => spec_parse_millis(digits),
                    _ => Option::None,
                }
            } else {
                Option::None
            }
        }
    }
}

fn speed_from_items(items: &Vec<JsonItem>) -> (r: Option<i64>)
    ensures
        opt_millis(r) == spec_speed_of_items(
            Option::Some(items@.map(|i: int, it: JsonItem| item_model(it))),
        ),
{
    if items.len() < 3 {
        return Option::None;
    }
    let ok0 = match &items[0] {
        JsonItem::Str(b) => is_set_property(b),
        _ => false,
    };
    let ok1 = match &items[1] {
        JsonItem::Str(b) => is_speed_prop(b),
        _ => false,
    };
    if !ok0 || !ok1 {
        return Option::None;
    }
    match &items[2] {
        JsonItem::Num(digits) => parse_decimal_millis(digits),
        _ => Option::None,
    }
}

/// Parses one command-channel line. Returns the commanded speed in
/// thousandths exactly when the line is the recognized set-speed command;
/// every other line - malformed JSON included - yields `None`.
pub fn parse_speed_command(line: &[u8]) -> (r: Option<i64>)
    ensures
        opt_millis(r) == spec_speed_of_items(ipc_items_of(line@)),
{
    match json_command_items(line) {
        Option::Some(items) => speed_from_items(&items),
        Option::None => Option::None,
    }
}

} // verus!
