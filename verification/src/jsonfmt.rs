use vstd::prelude::*;

use crate::data::{FileInfo, FileInfoV, ScanResult, ScanResultV};
use crate::numfmt::{dec_digits, digit_char};
use crate::numfmt::push_decimal;

verus! {

/// The character for one hexadecimal digit value, lower case.
pub open spec fn hex_char(d: nat) -> char {
    if d < 10 {
        digit_char(d)
    } else if d == 10 {
        'a'
    } else if d == 11 {
        'b'
    } else if d == 12 {
        'c'
    } else if d == 13 {
        'd'
    } else if d == 14 {
        'e'
    } else {
        'f'
    }
}

/// How one character is written inside a JSON string literal:
/// quote and backslash get a backslash escape, control characters a
/// `\u00..` escape, and every other character stands as itself.
pub open spec fn esc_char(c: char) -> Seq<char> {
    if c == '"' {
        seq!['\\', '"']
    } else if c == '\\' {
        seq!['\\', '\\']
    } else if (c as u32) < 32 {
        seq!['\\', 'u', '0', '0', hex_char(((c as u32) / 16) as nat), hex_char(
            ((c as u32) % 16) as nat,
        )]
    } else {
        seq![c]
    }
}

/// The body of a JSON string literal for `s`: each character escaped.
pub open spec fn escape(s: Seq<char>) -> Seq<char>
    decreases s.len(),
{
    if s.len() == 0 {
        Seq::empty()
    } else {
        esc_char(s[0]) + escape(s.skip(1))
    }
}

/// A whole JSON string literal for `s`, quotes included.
pub open spec fn json_string(s: Seq<char>) -> Seq<char> {
    seq!['"'] + escape(s) + seq!['"']
}

/// The items of the `dir` array, one name per line.
pub open spec fn json_dir_items(ds: Seq<Seq<char>>) -> Seq<char>
    decreases ds.len(),
{
    if ds.len() == 0 {
        Seq::empty()
    } else if ds.len() == 1 {
        "    "@ + json_string(ds[0])
    } else {
        "    "@ + json_string(ds[0]) + ",\n"@ + json_dir_items(ds.skip(1))
    }
}

/// The `dir` array, pretty-printed at one level of indentation.
pub open spec fn json_dir_array(ds: Seq<Seq<char>>) -> Seq<char> {
    if ds.len() == 0 {
        "[]"@
    } else {
        "[\n"@ + json_dir_items(ds) + "\n  ]"@
    }
}

/// One element of the `files` array, pretty-printed.
pub open spec fn json_file_obj(f: FileInfoV) -> Seq<char> {
    "{\n      \"name\": "@ + json_string(f.name) + ",\n      \"size\": "@ + dec_digits(
        f.size as nat,
    ) + ",\n      \"last_modification\": "@ + json_string(f.last_modification) + "\n    }"@
}

/// The items of the `files` array, one object per item.
pub open spec fn json_file_items(fs: Seq<FileInfoV>) -> Seq<char>
    decreases fs.len(),
{
    if fs.len() == 0 {
        Seq::empty()
    } else if fs.len() == 1 {
        "    "@ + json_file_obj(fs[0])
    } else {
        "    "@ + json_file_obj(fs[0]) + ",\n"@ + json_file_items(fs.skip(1))
    }
}

/// The `files` array, pretty-printed at one level of indentation.
pub open spec fn json_files_array(fs: Seq<FileInfoV>) -> Seq<char> {
    if fs.len() == 0 {
        "[]"@
    } else {
        "[\n"@ + json_file_items(fs) + "\n  ]"@
    }
}

/// The whole response body for one scan: a pretty-printed JSON object
/// with the echoed path, the subdirectory names, and the file entries.
pub open spec fn json_of(r: ScanResultV) -> Seq<char> {
    "{\n  \"path\": "@ + json_string(r.path) + ",\n  \"dir\": "@ + json_dir_array(r.dir)
        + ",\n  \"files\": "@ + json_files_array(r.files) + "\n}"@
}

/// Relies on `String::push` of std: appends the given character to the
/// end of this `String`.
#[verifier::external_body]
fn push_char(out: &mut String, c: char)
    ensures
        final(out)@ == old(out)@.push(c),
{
    out.push(c);
}

fn push_hex_digit(out: &mut String, d: u32)
    requires
        d < 16,
    ensures
        final(out)@ == old(out)@ + seq![hex_char(d as nat)],
{
    if d < 10 {
        push_decimal(out, d as u64);
        proof {
            assert(dec_digits(d as nat) =~= seq![hex_char(d as nat)]);
        }
    } else {
        proof {
            reveal_strlit("a");
            reveal_strlit("b");
            reveal_strlit("c");
            reveal_strlit("d");
            reveal_strlit("e");
            reveal_strlit("f");
        }
        if d == 10 {
            out.append("a");
            proof { assert(out@ =~= old(out)@ + seq![hex_char(d as nat)]); }
        } else if d == 11 {
            out.append("b");
            proof { assert(out@ =~= old(out)@ + seq![hex_char(d as nat)]); }
        } else if d == 12 {
            out.append("c");
            proof { assert(out@ =~= old(out)@ + seq![hex_char(d as nat)]); }
        } else if d == 13 {
            out.append("d");
            proof { assert(out@ =~= old(out)@ + seq![hex_char(d as nat)]); }
        } else if d == 14 {
            out.append("e");
            proof { assert(out@ =~= old(out)@ + seq![hex_char(d as nat)]); }
        } else {
            out.append("f");
            proof { assert(out@ =~= old(out)@ + seq![hex_char(d as nat)]); }
        }
    }
}

fn push_esc_char(out: &mut String, c: char)
    ensures
        final(out)@ == old(out)@ + esc_char(c),
{
    let u = c as u32;
    if c == '"' {
        out.append("\\\"");
        proof {
            reveal_strlit("\\\"");
            assert(out@ =~= old(out)@ + esc_char(c));
        }
    } else if c == '\\' {
        out.append("\\\\");
        proof {
            reveal_strlit("\\\\");
            assert(out@ =~= old(out)@ + esc_char(c));
        }
    } else if u < 32 {
        out.append("\\u00");
        push_hex_digit(out, u / 16);
        push_hex_digit(out, u % 16);
        proof {
            reveal_strlit("\\u00");
            assert(out@ =~= old(out)@ + esc_char(c));
        }
    } else {
        push_char(out, c);
        proof {
            assert(out@ =~= old(out)@ + esc_char(c));
        }
    }
}

proof fn lemma_escape_push(s: Seq<char>, c: char)
    ensures
        escape(s.push(c)) == escape(s) + esc_char(c),
    decreases s.len(),
{
    if s.len() == 0 {
        assert(s.push(c) =~= seq![c]);
        assert(seq![c].skip(1) =~= Seq::<char>::empty());
        assert(escape(seq![c]) == esc_char(seq![c][0]) + escape(seq![c].skip(1)));
        assert(seq![c][0] == c);
        assert(escape(Seq::<char>::empty()) == Seq::<char>::empty());
        assert(escape(s) == Seq::<char>::empty());
        assert(esc_char(c) + Seq::<char>::empty() =~= esc_char(c));
        assert(Seq::<char>::empty() + esc_char(c) =~= esc_char(c));
        assert(escape(s.push(c)) == escape(s) + esc_char(c));
    } else {
        lemma_escape_push(s.skip(1), c);
        assert(s.push(c).skip(1) =~= s.skip(1).push(c));
        assert(s.push(c)[0] == s[0]);
        assert(s.push(c).len() != 0);
        assert(escape(s.push(c)) == esc_char(s.push(c)[0]) + escape(s.push(c).skip(1)));
        assert(escape(s.push(c).skip(1)) == escape(s.skip(1).push(c)));
        assert(escape(s) == esc_char(s[0]) + escape(s.skip(1)));
        assert(escape(s.push(c)) =~= escape(s) + esc_char(c));
    }
}

fn push_escaped(out: &mut String, s: &str)
    ensures
        final(out)@ == old(out)@ + escape(s@),
{
    let n = s.unicode_len();
    let mut i: usize = 0;
    proof {
        assert(s@.take(0) =~= Seq::<char>::empty());
    }
    while i < n
        invariant
            n == s@.len(),
            i <= n,
            out@ == old(out)@ + escape(s@.take(i as int)),
        decreases n - i,
    {
        let c = s.get_char(i);
        push_esc_char(out, c);
        proof {
            assert(s@.take(i + 1) =~= s@.take(i as int).push(s@[i as int]));
            lemma_escape_push(s@.take(i as int), c);
            assert(out@ =~= old(out)@ + escape(s@.take(i + 1)));
        }
        i = i + 1;
    }
    proof {
        assert(s@.take(n as int) =~= s@);
    }
}

fn push_json_string(out: &mut String, s: &str)
    ensures
        final(out)@ == old(out)@ + json_string(s@),
{
    proof {
        reveal_strlit("\"");
    }
    out.append("\"");
    push_escaped(out, s);
    out.append("\"");
    proof {
        assert("\""@ =~= seq!['"']);
        assert(out@ =~= old(out)@ + json_string(s@));
    }
}

fn push_dir_items(out: &mut String, ds: &Vec<String>, i: usize)
    requires
        i < ds.len(),
    ensures
        final(out)@ == old(out)@ + json_dir_items(ds@.map_values(|s: String| s@).skip(i as int)),
    decreases ds.len() - i,
{
    let ghost vs = ds@.map_values(|s: String| s@);
    out.append("    ");
    push_json_string(out, ds[i].as_str());
    if i + 1 < ds.len() {
        out.append(",\n");
        push_dir_items(out, ds, i + 1);
        proof {
            assert(vs.skip(i as int).skip(1) =~= vs.skip(i + 1));
            assert(vs.skip(i as int)[0] == vs[i as int]);
            assert(out@ =~= old(out)@ + json_dir_items(vs.skip(i as int)));
        }
    } else {
        proof {
            assert(vs.skip(i as int).len() == 1);
            assert(vs.skip(i as int)[0] == vs[i as int]);
            assert(out@ =~= old(out)@ + json_dir_items(vs.skip(i as int)));
        }
    }
}

fn push_dir_array(out: &mut String, ds: &Vec<String>)
    ensures
        final(out)@ == old(out)@ + json_dir_array(ds@.map_values(|s: String| s@)),
{
    let ghost vs = ds@.map_values(|s: String| s@);
    if ds.len() == 0 {
        out.append("[]");
    } else {
        out.append("[\n");
        push_dir_items(out, ds, 0);
        out.append("\n  ]");
        proof {
            assert(vs.skip(0) =~= vs);
            assert(out@ =~= old(out)@ + json_dir_array(vs));
        }
    }
}

fn push_file_obj(out: &mut String, f: &FileInfo)
    ensures
        final(out)@ == old(out)@ + json_file_obj(f@),
{
    out.append("{\n      \"name\": ");
    push_json_string(out, f.name.as_str());
    out.append(",\n      \"size\": ");
    push_decimal(out, f.size);
    out.append(",\n      \"last_modification\": ");
    push_json_string(out, f.last_modification.as_str());
    out.append("\n    }");
    proof {
        assert(out@ =~= old(out)@ + json_file_obj(f@));
    }
}

fn push_file_items(out: &mut String, fs: &Vec<FileInfo>, i: usize)
    requires
        i < fs.len(),
    ensures
        final(out)@ == old(out)@ + json_file_items(fs@.map_values(|f: FileInfo| f@).skip(i as int)),
    decreases fs.len() - i,
{
    let ghost vs = fs@.map_values(|f: FileInfo| f@);
    out.append("    ");
    push_file_obj(out, &fs[i]);
    if i + 1 < fs.len() {
        out.append(",\n");
        push_file_items(out, fs, i + 1);
        proof {
            assert(vs.skip(i as int).skip(1) =~= vs.skip(i + 1));
            assert(vs.skip(i as int)[0] == vs[i as int]);
            assert(out@ =~= old(out)@ + json_file_items(vs.skip(i as int)));
        }
    } else {
        proof {
            assert(vs.skip(i as int).len() == 1);
            assert(vs.skip(i as int)[0] == vs[i as int]);
            assert(out@ =~= old(out)@ + json_file_items(vs.skip(i as int)));
        }
    }
}

fn push_files_array(out: &mut String, fs: &Vec<FileInfo>)
    ensures
        final(out)@ == old(out)@ + json_files_array(fs@.map_values(|f: FileInfo| f@)),
{
    let ghost vs = fs@.map_values(|f: FileInfo| f@);
    if fs.len() == 0 {
        out.append("[]");
    } else {
        out.append("[\n");
        push_file_items(out, fs, 0);
        out.append("\n  ]");
        proof {
            assert(vs.skip(0) =~= vs);
            assert(out@ =~= old(out)@ + json_files_array(vs));
        }
    }
}

/// Renders one scan outcome as the pretty-printed JSON response body.
pub fn to_json(r: &ScanResult) -> (out: String)
    ensures
        out@ == json_of(r@),
{
    let mut out = String::new();
    out.append("{\n  \"path\": ");
    push_json_string(&mut out, r.path.as_str());
    out.append(",\n  \"dir\": ");
    push_dir_array(&mut out, &r.dir);
    out.append(",\n  \"files\": ");
    push_files_array(&mut out, &r.files);
    out.append("\n}");
    proof {
        assert(out@ =~= json_of(r@));
    }
    out
}

} // verus!
