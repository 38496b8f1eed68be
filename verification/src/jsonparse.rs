use vstd::prelude::*;

use crate::data::{FileInfoV, ScanResultV};
use crate::jsonfmt::{
    esc_char, escape, hex_char, json_dir_array, json_dir_items, json_file_items, json_file_obj,
    json_files_array, json_of, json_string,
};
use crate::numfmt::{
    dec_digits, digit_val, is_dec_digit, lemma_dec_digits_are_digits, lemma_val_of_dec_digits,
    val_of_digits,
};

verus! {

/// Whether `p` is what `s` starts with.
pub open spec fn has_prefix(s: Seq<char>, p: Seq<char>) -> bool {
    s.len() >= p.len() && s.take(p.len() as int) == p
}

/// Consumes the exact literal `p` from the front of `s`.
pub open spec fn parse_lit(s: Seq<char>, p: Seq<char>) -> Option<Seq<char>> {
    if has_prefix(s, p) {
        Some(s.skip(p.len() as int))
    } else {
        None
    }
}

pub open spec fn is_hex_lower(c: char) -> bool {
    is_dec_digit(c) || 97 <= c as u32 <= 102
}

pub open spec fn hex_val(c: char) -> nat {
    if is_dec_digit(c) {
        digit_val(c)
    } else {
        (c as u32 - 87) as nat
    }
}

/// Reads the body of a JSON string literal up to its closing quote,
/// undoing the escapes that [`escape`] writes; returns the decoded
/// characters and what follows the closing quote.
pub open spec fn parse_str_body(s: Seq<char>) -> Option<(Seq<char>, Seq<char>)>
    decreases s.len(),
{
    if s.len() == 0 {
        None
    } else if s[0] == '"' {
        Some((Seq::empty(), s.skip(1)))
    } else if s[0] == '\\' {
        if s.len() >= 2 && (s[1] == '"' || s[1] == '\\') {
            match parse_str_body(s.skip(2)) {
                None => None,
                Some((t, rest)) => Some((seq![s[1]] + t, rest)),
            }
        } else if s.len() >= 6 && s[1] == 'u' && s[2] == '0' && s[3] == '0' && is_hex_lower(s[4])
            && is_hex_lower(s[5]) {
            match parse_str_body(s.skip(6)) {
                None => None,
                Some((t, rest)) => Some(
                    (seq![(((hex_val(s[4]) * 16 + hex_val(s[5])) as u32) as char)] + t, rest),
                ),
            }
        } else {
            None
        }
    } else {
        match parse_str_body(s.skip(1)) {
            None => None,
            Some((t, rest)) => Some((seq![s[0]] + t, rest)),
        }
    }
}

/// Reads a whole JSON string literal, quotes included.
pub open spec fn parse_string(s: Seq<char>) -> Option<(Seq<char>, Seq<char>)> {
    match parse_lit(s, seq!['"']) {
        None => None,
        Some(t) => parse_str_body(t),
    }
}

/// How many decimal digit characters `s` starts with.
pub open spec fn digit_prefix_len(s: Seq<char>) -> nat
    decreases s.len(),
{
    if s.len() == 0 || !is_dec_digit(s[0]) {
        0
    } else {
        1 + digit_prefix_len(s.skip(1))
    }
}

/// Reads a nonempty run of decimal digits as a number.
pub open spec fn parse_number(s: Seq<char>) -> Option<(nat, Seq<char>)> {
    let k = digit_prefix_len(s);
    if k == 0 {
        None
    } else {
        Some((val_of_digits(s.take(k as int)), s.skip(k as int)))
    }
}

/// Reads the items of the `dir` array, one name per line. `fuel`
/// bounds the recursion; any value at least the item count serves.
pub open spec fn parse_dir_items(s: Seq<char>, fuel: nat) -> Option<(Seq<Seq<char>>, Seq<char>)>
    decreases fuel,
{
    if fuel == 0 {
        None
    } else {
        match parse_lit(s, "    "@) {
            None => None,
            Some(s1) => match parse_string(s1) {
                None => None,
                Some((d, r1)) => match parse_lit(r1, ",\n"@) {
                    Some(r2) => match parse_dir_items(r2, (fuel - 1) as nat) {
                        None => None,
                        Some((ds, rest)) => Some((seq![d] + ds, rest)),
                    },
                    None => Some((seq![d], r1)),
                },
            },
        }
    }
}

/// Reads the whole `dir` array.
pub open spec fn parse_dir_array(s: Seq<char>) -> Option<(Seq<Seq<char>>, Seq<char>)> {
    if has_prefix(s, "[]"@) {
        Some((Seq::empty(), s.skip(2)))
    } else {
        match parse_lit(s, "[\n"@) {
            None => None,
            Some(s1) => match parse_dir_items(s1, s1.len()) {
                None => None,
                Some((ds, r)) => match parse_lit(r, "\n  ]"@) {
                    None => None,
                    Some(rest) => Some((ds, rest)),
                },
            },
        }
    }
}

/// Reads one element of the `files` array.
pub open spec fn parse_file_obj(s: Seq<char>) -> Option<(FileInfoV, Seq<char>)> {
    match parse_lit(s, "{\n      \"name\": "@) {
        None => None,
        Some(s1) => match parse_string(s1) {
            None => None,
            Some((name, r1)) => match parse_lit(r1, ",\n      \"size\": "@) {
                None => None,
                Some(s2) => match parse_number(s2) {
                    None => None,
                    Some((n, r2)) => if n > u64::MAX {
                        None
                    } else {
                        match parse_lit(r2, ",\n      \"last_modification\": "@) {
                            None => None,
                            Some(s3) => match parse_string(s3) {
                                None => None,
                                Some((lm, r3)) => match parse_lit(r3, "\n    }"@) {
                                    None => None,
                                    Some(rest) => Some(
                                        (
                                            FileInfoV {
                                                name: name,
                                                size: n as u64,
                                                last_modification: lm,
                                            },
                                            rest,
                                        ),
                                    ),
                                },
                            },
                        }
                    },
                },
            },
        },
    }
}

/// Reads the items of the `files` array. `fuel` bounds the recursion.
pub open spec fn parse_file_items(s: Seq<char>, fuel: nat) -> Option<(Seq<FileInfoV>, Seq<char>)>
    decreases fuel,
{
    if fuel == 0 {
        None
    } else {
        match parse_lit(s, "    "@) {
            None => None,
            Some(s1) => match parse_file_obj(s1) {
                None => None,
                Some((f, r1)) => match parse_lit(r1, ",\n"@) {
                    Some(r2) => match parse_file_items(r2, (fuel - 1) as nat) {
                        None => None,
                        Some((fs, rest)) => Some((seq![f] + fs, rest)),
                    },
                    None => Some((seq![f], r1)),
                },
            },
        }
    }
}

/// Reads the whole `files` array.
pub open spec fn parse_files_array(s: Seq<char>) -> Option<(Seq<FileInfoV>, Seq<char>)> {
    if has_prefix(s, "[]"@) {
        Some((Seq::empty(), s.skip(2)))
    } else {
        match parse_lit(s, "[\n"@) {
            None => None,
            Some(s1) => match parse_file_items(s1, s1.len()) {
                None => None,
                Some((fs, r)) => match parse_lit(r, "\n  ]"@) {
                    None => None,
                    Some(rest) => Some((fs, rest)),
                },
            },
        }
    }
}

/// Decodes a whole response body back into the scan outcome it
/// renders.
pub open spec fn parse_scan_result(s: Seq<char>) -> Option<ScanResultV> {
    match parse_lit(s, "{\n  \"path\": "@) {
        None => None,
        Some(s1) => match parse_string(s1) {
            None => None,
            Some((p, r1)) => match parse_lit(r1, ",\n  \"dir\": "@) {
                None => None,
                Some(s2) => match parse_dir_array(s2) {
                    None => None,
                    Some((ds, r2)) => match parse_lit(r2, ",\n  \"files\": "@) {
                        None => None,
                        Some(s3) => match parse_files_array(s3) {
                            None => None,
                            Some((fs, r3)) => match parse_lit(r3, "\n}"@) {
                                None => None,
                                Some(rest) => if rest.len() == 0 {
                                    Some(ScanResultV { path: p, dir: ds, files: fs })
                                } else {
                                    None
                                },
                            },
                        },
                    },
                },
            },
        },
    }
}

proof fn lemma_parse_lit(p: Seq<char>, rest: Seq<char>)
    ensures
        parse_lit(p + rest, p) == Some(rest),
{
    assert((p + rest).take(p.len() as int) =~= p);
    assert((p + rest).skip(p.len() as int) =~= rest);
}

proof fn lemma_hex_char_val(d: nat)
    requires
        d < 16,
    ensures
        is_hex_lower(hex_char(d)),
        hex_val(hex_char(d)) == d,
{
}

proof fn lemma_parse_str_body(x: Seq<char>, rest: Seq<char>)
    ensures
        parse_str_body(escape(x) + seq!['"'] + rest) == Some((x, rest)),
    decreases x.len(),
{
    let s = escape(x) + seq!['"'] + rest;
    if x.len() == 0 {
        assert(escape(x) == Seq::<char>::empty());
        assert(s =~= seq!['"'] + rest);
        assert(s[0] == '"');
        assert(s.skip(1) =~= rest);
        assert(parse_str_body(s) == Some((Seq::<char>::empty(), rest)));
        assert(Seq::<char>::empty() =~= x);
    } else {
        let c = x[0];
        let x1 = x.skip(1);
        let tail = escape(x1) + seq!['"'] + rest;
        lemma_parse_str_body(x1, rest);
        assert(escape(x) == esc_char(c) + escape(x1));
        if c == '"' {
            assert(s =~= seq!['\\', '"'] + tail);
            assert(s[0] == '\\' && s[1] == '"' && s.len() >= 2);
            assert(s.skip(2) =~= tail);
            assert(parse_str_body(s) == Some((seq![s[1]] + x1, rest)));
            assert(seq![c] + x1 =~= x);
        } else if c == '\\' {
            assert(s =~= seq!['\\', '\\'] + tail);
            assert(s[0] == '\\' && s[1] == '\\' && s.len() >= 2);
            assert(s.skip(2) =~= tail);
            assert(parse_str_body(s) == Some((seq![s[1]] + x1, rest)));
            assert(seq![c] + x1 =~= x);
        } else if (c as u32) < 32 {
            let u = c as u32;
            let h1 = hex_char((u / 16) as nat);
            let h2 = hex_char((u % 16) as nat);
            lemma_hex_char_val((u / 16) as nat);
            lemma_hex_char_val((u % 16) as nat);
            assert(s =~= seq!['\\', 'u', '0', '0', h1, h2] + tail);
            assert(s[0] == '\\' && s[1] == 'u' && s[2] == '0' && s[3] == '0');
            assert(s[4] == h1 && s[5] == h2 && s.len() >= 6);
            assert(s[1] != '"' && s[1] != '\\');
            assert(s.skip(6) =~= tail);
            assert(hex_val(s[4]) * 16 + hex_val(s[5]) == (u / 16) * 16 + u % 16);
            assert((u / 16) * 16 + u % 16 == u);
            vstd::utf8::char_u32_cast(c, u);
            assert((((hex_val(s[4]) * 16 + hex_val(s[5])) as u32) as char) == c);
            assert(parse_str_body(s) == Some((seq![c] + x1, rest)));
            assert(seq![c] + x1 =~= x);
        } else {
            assert(esc_char(c) == seq![c]);
            assert(s =~= seq![c] + tail);
            assert(s[0] == c && c != '"' && c != '\\');
            assert(s.skip(1) =~= tail);
            assert(parse_str_body(s) == Some((seq![s[0]] + x1, rest)));
            assert(seq![c] + x1 =~= x);
        }
    }
}

proof fn lemma_parse_string(x: Seq<char>, rest: Seq<char>)
    ensures
        parse_string(json_string(x) + rest) == Some((x, rest)),
{
    let s = json_string(x) + rest;
    let body = escape(x) + seq!['"'] + rest;
    assert(s =~= seq!['"'] + body);
    lemma_parse_lit(seq!['"'], body);
    lemma_parse_str_body(x, rest);
}

proof fn lemma_digit_prefix_len(ds: Seq<char>, rest: Seq<char>)
    requires
        forall|i: int| 0 <= i < ds.len() ==> is_dec_digit(#[trigger] ds[i]),
        rest.len() > 0,
        !is_dec_digit(rest[0]),
    ensures
        digit_prefix_len(ds + rest) == ds.len(),
    decreases ds.len(),
{
    if ds.len() == 0 {
        assert(ds + rest =~= rest);
    } else {
        assert((ds + rest)[0] == ds[0]);
        assert((ds + rest).skip(1) =~= ds.skip(1) + rest);
        lemma_digit_prefix_len(ds.skip(1), rest);
    }
}

proof fn lemma_parse_number(n: nat, rest: Seq<char>)
    requires
        rest.len() > 0,
        !is_dec_digit(rest[0]),
    ensures
        parse_number(dec_digits(n) + rest) == Some((n, rest)),
{
    let ds = dec_digits(n);
    lemma_dec_digits_are_digits(n);
    lemma_digit_prefix_len(ds, rest);
    assert((ds + rest).take(ds.len() as int) =~= ds);
    assert((ds + rest).skip(ds.len() as int) =~= rest);
    lemma_val_of_dec_digits(n);
}

proof fn lemma_json_dir_items_len(ds: Seq<Seq<char>>)
    requires
        ds.len() >= 1,
    ensures
        json_dir_items(ds).len() >= ds.len(),
    decreases ds.len(),
{
    reveal_strlit("    ");
    reveal_strlit(",\n");
    if ds.len() > 1 {
        lemma_json_dir_items_len(ds.skip(1));
    }
}

proof fn lemma_parse_dir_items(ds: Seq<Seq<char>>, rest: Seq<char>, fuel: nat)
    requires
        ds.len() >= 1,
        fuel >= ds.len(),
        rest.len() > 0,
        rest[0] == '\n',
    ensures
        parse_dir_items(json_dir_items(ds) + rest, fuel) == Some((ds, rest)),
    decreases ds.len(),
{
    reveal_strlit("    ");
    reveal_strlit(",\n");
    let s = json_dir_items(ds) + rest;
    if ds.len() == 1 {
        let x = json_string(ds[0]) + rest;
        assert(s =~= "    "@ + x);
        lemma_parse_lit("    "@, x);
        lemma_parse_string(ds[0], rest);
        assert(!has_prefix(rest, ",\n"@)) by {
            if has_prefix(rest, ",\n"@) {
                assert(rest.take(2)[0] == rest[0]);
                assert((",\n"@)[0] == ',');
            }
        }
        assert(parse_dir_items(s, fuel) == Some((seq![ds[0]], rest)));
        assert(seq![ds[0]] =~= ds);
    } else {
        let inner = json_dir_items(ds.skip(1)) + rest;
        let r1 = ",\n"@ + inner;
        let x = json_string(ds[0]) + r1;
        assert(s =~= "    "@ + x);
        lemma_parse_lit("    "@, x);
        lemma_parse_string(ds[0], r1);
        lemma_parse_lit(",\n"@, inner);
        lemma_parse_dir_items(ds.skip(1), rest, (fuel - 1) as nat);
        assert(parse_dir_items(s, fuel) == Some((seq![ds[0]] + ds.skip(1), rest)));
        assert(seq![ds[0]] + ds.skip(1) =~= ds);
    }
}

proof fn lemma_parse_dir_array(ds: Seq<Seq<char>>, rest: Seq<char>)
    requires
        rest.len() > 0,
    ensures
        parse_dir_array(json_dir_array(ds) + rest) == Some((ds, rest)),
{
    reveal_strlit("[]");
    reveal_strlit("[\n");
    reveal_strlit("\n  ]");
    let s = json_dir_array(ds) + rest;
    if ds.len() == 0 {
        assert(s =~= "[]"@ + rest);
        assert(has_prefix(s, "[]"@)) by {
            assert(s.take(2) =~= "[]"@);
        }
        assert(s.skip(2) =~= rest);
    } else {
        let close = "\n  ]"@ + rest;
        let items = json_dir_items(ds) + close;
        assert(s =~= "[\n"@ + items);
        assert(!has_prefix(s, "[]"@)) by {
            if has_prefix(s, "[]"@) {
                assert(s.take(2)[1] == s[1]);
                assert(s[1] == '\n');
                assert(("[]"@)[1] == ']');
            }
        }
        lemma_parse_lit("[\n"@, items);
        lemma_json_dir_items_len(ds);
        assert(items.len() >= ds.len());
        lemma_parse_dir_items(ds, close, items.len());
        lemma_parse_lit("\n  ]"@, rest);
        assert(parse_dir_array(s) == Some((ds, rest)));
    }
}

proof fn lemma_parse_file_obj(f: FileInfoV, rest: Seq<char>)
    ensures
        parse_file_obj(json_file_obj(f) + rest) == Some((f, rest)),
{
    reveal_strlit("{\n      \"name\": ");
    reveal_strlit(",\n      \"size\": ");
    reveal_strlit(",\n      \"last_modification\": ");
    reveal_strlit("\n    }");
    let s = json_file_obj(f) + rest;
    let r3 = "\n    }"@ + rest;
    let s3 = json_string(f.last_modification) + r3;
    let r2 = ",\n      \"last_modification\": "@ + s3;
    let s2 = dec_digits(f.size as nat) + r2;
    let r1 = ",\n      \"size\": "@ + s2;
    let s1 = json_string(f.name) + r1;
    assert(s =~= "{\n      \"name\": "@ + s1);
    lemma_parse_lit("{\n      \"name\": "@, s1);
    lemma_parse_string(f.name, r1);
    lemma_parse_lit(",\n      \"size\": "@, s2);
    assert(r2[0] == ',');
    assert(!is_dec_digit(r2[0]));
    lemma_parse_number(f.size as nat, r2);
    assert(f.size as nat <= u64::MAX);
    lemma_parse_lit(",\n      \"last_modification\": "@, s3);
    lemma_parse_string(f.last_modification, r3);
    lemma_parse_lit("\n    }"@, rest);
    assert(parse_file_obj(s) matches Some((g, r)) && r == rest && g == f) by {
        assert(parse_file_obj(s) is Some);
        let (g, r) = parse_file_obj(s)->Some_0;
        assert(g.name == f.name && g.size == f.size && g.last_modification
            == f.last_modification);
    }
}

proof fn lemma_json_file_items_len(fs: Seq<FileInfoV>)
    requires
        fs.len() >= 1,
    ensures
        json_file_items(fs).len() >= fs.len(),
    decreases fs.len(),
{
    reveal_strlit("    ");
    reveal_strlit(",\n");
    if fs.len() > 1 {
        lemma_json_file_items_len(fs.skip(1));
    }
}

proof fn lemma_parse_file_items(fs: Seq<FileInfoV>, rest: Seq<char>, fuel: nat)
    requires
        fs.len() >= 1,
        fuel >= fs.len(),
        rest.len() > 0,
        rest[0] == '\n',
    ensures
        parse_file_items(json_file_items(fs) + rest, fuel) == Some((fs, rest)),
    decreases fs.len(),
{
    reveal_strlit("    ");
    reveal_strlit(",\n");
    let s = json_file_items(fs) + rest;
    if fs.len() == 1 {
        let x = json_file_obj(fs[0]) + rest;
        assert(s =~= "    "@ + x);
        lemma_parse_lit("    "@, x);
        lemma_parse_file_obj(fs[0], rest);
        assert(!has_prefix(rest, ",\n"@)) by {
            if has_prefix(rest, ",\n"@) {
                assert(rest.take(2)[0] == rest[0]);
                assert((",\n"@)[0] == ',');
            }
        }
        assert(parse_file_items(s, fuel) == Some((seq![fs[0]], rest)));
        assert(seq![fs[0]] =~= fs);
    } else {
        let inner = json_file_items(fs.skip(1)) + rest;
        let r1 = ",\n"@ + inner;
        let x = json_file_obj(fs[0]) + r1;
        assert(s =~= "    "@ + x);
        lemma_parse_lit("    "@, x);
        lemma_parse_file_obj(fs[0], r1);
        lemma_parse_lit(",\n"@, inner);
        lemma_parse_file_items(fs.skip(1), rest, (fuel - 1) as nat);
        assert(parse_file_items(s, fuel) == Some((seq![fs[0]] + fs.skip(1), rest)));
        assert(seq![fs[0]] + fs.skip(1) =~= fs);
    }
}

proof fn lemma_parse_files_array(fs: Seq<FileInfoV>, rest: Seq<char>)
    requires
        rest.len() > 0,
    ensures
        parse_files_array(json_files_array(fs) + rest) == Some((fs, rest)),
{
    reveal_strlit("[]");
    reveal_strlit("[\n");
    reveal_strlit("\n  ]");
    let s = json_files_array(fs) + rest;
    if fs.len() == 0 {
        assert(s =~= "[]"@ + rest);
        assert(has_prefix(s, "[]"@)) by {
            assert(s.take(2) =~= "[]"@);
        }
        assert(s.skip(2) =~= rest);
    } else {
        let close = "\n  ]"@ + rest;
        let items = json_file_items(fs) + close;
        assert(s =~= "[\n"@ + items);
        assert(!has_prefix(s, "[]"@)) by {
            if has_prefix(s, "[]"@) {
                assert(s.take(2)[1] == s[1]);
                assert(s[1] == '\n');
                assert(("[]"@)[1] == ']');
            }
        }
        lemma_parse_lit("[\n"@, items);
        lemma_json_file_items_len(fs);
        lemma_parse_file_items(fs, close, items.len());
        lemma_parse_lit("\n  ]"@, rest);
        assert(parse_files_array(s) == Some((fs, rest)));
    }
}

/// The serialization round trip: decoding the JSON rendering of any
/// scan outcome gives that outcome back, field for field; re-encoding
/// it therefore reproduces the same body.
pub proof fn lemma_json_round_trip(r: ScanResultV)
    ensures
        parse_scan_result(json_of(r)) == Some(r),
{
    reveal_strlit("{\n  \"path\": ");
    reveal_strlit(",\n  \"dir\": ");
    reveal_strlit(",\n  \"files\": ");
    reveal_strlit("\n}");
    let s = json_of(r);
    let r3 = "\n}"@;
    let s3 = json_files_array(r.files) + r3;
    let r2 = ",\n  \"files\": "@ + s3;
    let s2 = json_dir_array(r.dir) + r2;
    let r1 = ",\n  \"dir\": "@ + s2;
    let s1 = json_string(r.path) + r1;
    assert(s =~= "{\n  \"path\": "@ + s1);
    lemma_parse_lit("{\n  \"path\": "@, s1);
    lemma_parse_string(r.path, r1);
    lemma_parse_lit(",\n  \"dir\": "@, s2);
    lemma_parse_dir_array(r.dir, r2);
    lemma_parse_lit(",\n  \"files\": "@, s3);
    lemma_parse_files_array(r.files, r3);
    lemma_parse_lit("\n}"@, Seq::<char>::empty());
    assert(json_files_array(r.files) + "\n}"@ =~= json_files_array(r.files) + ("\n}"@
        + Seq::<char>::empty()));
    assert(parse_scan_result(s) == Some(ScanResultV { path: r.path, dir: r.dir, files: r.files }));
    assert(ScanResultV { path: r.path, dir: r.dir, files: r.files } == r);
}

} // verus!
