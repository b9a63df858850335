//! A minimal PDF writer for report text in a built-in CJK font: 43 lines a page,
//! each line written as UTF-16 hexadecimal, with the cross-reference table that
//! readers use to find the objects.
use vstd::prelude::*;
use vstd::utf8::{encode_utf8, is_ascii_chars};
use crate::cli::java::{utf16_hex, utf16be_hex};
use crate::text::{chars_of, dec, dec_spec, join, join_spec, push_all, push_str, string_of, string_views, views};

verus! {

pub open spec fn lines_per_page() -> nat {
    43
}

/// The number of pages that hold `n` lines.
pub open spec fn chunk_count(n: nat) -> nat {
    n / 43 + if n % 43 > 0 {
        1nat
    } else {
        0nat
    }
}

/// The number the page tree states: one at least.
pub open spec fn page_count(n: nat) -> nat {
    if n == 0 {
        1
    } else {
        chunk_count(n)
    }
}

/// The lines of page `idx`.
pub open spec fn chunk(lines: Seq<Seq<char>>, idx: int) -> Seq<Seq<char>> {
    let start = 43 * idx;
    let end = if start + 43 < lines.len() {
        start + 43
    } else {
        lines.len() as int
    };
    lines.subrange(start, end)
}

/// The references to the page objects: `4 0 R 6 0 R ...`.
pub open spec fn kids_text(count: nat) -> Seq<char> {
    join_spec(Seq::new(count, |i: int| dec_spec((4 + 2 * i) as nat) + " 0 R"@), " "@)
}

/// The drawing operators of line `li` of page `page`: the first line of the first
/// page in 16 point, the others in 10 point, 17 points apart from the top.
pub open spec fn line_ops(page: int, li: int, line: Seq<char>) -> Seq<char> {
    "BT\n/F1 "@ + dec_spec(
        if page == 0 && li == 0 {
            16
        } else {
            10
        },
    ) + " Tf\n50 "@ + dec_spec((800 - 17 * li) as nat) + " Td\n<"@ + utf16_hex(line) + "> Tj\nET\n"@
}

pub open spec fn page_stream(page: int, ls: Seq<Seq<char>>) -> Seq<char>
    decreases ls.len(),
{
    if ls.len() == 0 {
        Seq::empty()
    } else {
        page_stream(page, ls.drop_last()) + line_ops(page, ls.len() - 1, ls.last())
    }
}

pub open spec fn catalog_text() -> Seq<char> {
    "<< /Type /Catalog /Pages 2 0 R >>"@
}

pub open spec fn font_text() -> Seq<char> {
    "<< /Type /Font /Subtype /Type0 /BaseFont /STSong-Light /Encoding /UniGB-UCS2-H /DescendantFonts [<< /Type /Font /Subtype /CIDFontType0 /BaseFont /STSong-Light /CIDSystemInfo << /Registry (Adobe) /Ordering (GB1) /Supplement 5 >> /FontDescriptor << /Type /FontDescriptor /FontName /STSong-Light /Flags 4 /FontBBox [0 -200 1000 900] /ItalicAngle 0 /Ascent 880 /Descent -120 /CapHeight 700 /StemV 80 >> >>] >>"@
}

pub open spec fn pages_text(n: nat) -> Seq<char> {
    "<< /Type /Pages /Kids ["@ + kids_text(page_count(n)) + "] /Count "@ + dec_spec(page_count(n)) + " >>"@
}

pub open spec fn page_obj_text(idx: int) -> Seq<char> {
    "<< /Type /Page /Parent 2 0 R /MediaBox [0 0 595 842] /Resources << /Font << /F1 3 0 R >> >> /Contents "@
        + dec_spec((5 + 2 * idx) as nat) + " 0 R >>"@
}

/// A content stream object: its length in bytes, then the stream.
pub open spec fn content_obj_text(stream: Seq<char>) -> Seq<char> {
    "<< /Length "@ + dec_spec(encode_utf8(stream).len()) + " >>\nstream\n"@ + stream + "endstream"@
}

pub open spec fn page_objects(lines: Seq<Seq<char>>, k: nat) -> Seq<Seq<char>>
    decreases k,
{
    if k == 0 {
        Seq::empty()
    } else {
        page_objects(lines, (k - 1) as nat) + seq![
            page_obj_text(k - 1),
            content_obj_text(page_stream(k - 1, chunk(lines, k - 1))),
        ]
    }
}

/// The objects of the document, in number order from 1: catalog, page tree, font,
/// then a page and its content for each page of lines.
pub open spec fn object_texts(lines: Seq<Seq<char>>) -> Seq<Seq<char>> {
    seq![catalog_text(), pages_text(lines.len()), font_text()] + page_objects(lines, chunk_count(lines.len()))
}

/// `%PDF-1.4`, then a comment of four bytes above 127 that marks the file binary.
pub open spec fn pdf_header() -> Seq<u8> {
    seq![37u8, 80u8, 68u8, 70u8, 45u8, 49u8, 46u8, 52u8, 10u8, 37u8, 0xE2u8, 0xE3u8, 0xCFu8, 0xD3u8, 10u8]
}

pub open spec fn obj_entry(k: int, obj: Seq<char>) -> Seq<u8> {
    encode_utf8(dec_spec((k + 1) as nat) + " 0 obj\n"@) + encode_utf8(obj) + encode_utf8("\nendobj\n"@)
}

pub open spec fn obj_entries(objs: Seq<Seq<char>>) -> Seq<u8>
    decreases objs.len(),
{
    if objs.len() == 0 {
        Seq::empty()
    } else {
        obj_entries(objs.drop_last()) + obj_entry(objs.len() - 1, objs.last())
    }
}

/// A decimal number at least ten characters wide, padded with zeros.
pub open spec fn zero_pad10(d: Seq<char>) -> Seq<char> {
    if d.len() < 10 {
        Seq::new((10 - d.len()) as nat, |i: int| '0') + d
    } else {
        d
    }
}

/// Where object `j` starts in the file.
pub open spec fn obj_offset(objs: Seq<Seq<char>>, j: int) -> nat {
    pdf_header().len() + obj_entries(objs.take(j)).len()
}

pub open spec fn xref_rows(objs: Seq<Seq<char>>, k: nat) -> Seq<u8>
    decreases k,
{
    if k == 0 {
        Seq::empty()
    } else {
        xref_rows(objs, (k - 1) as nat) + encode_utf8(
            zero_pad10(dec_spec(obj_offset(objs, k - 1))) + " 00000 n \n"@,
        )
    }
}

/// The bytes of the document for these lines.
pub open spec fn pdf_bytes(lines: Seq<Seq<char>>) -> Seq<u8> {
    let objs = object_texts(lines);
    let n = objs.len();
    let body = pdf_header() + obj_entries(objs);
    body + encode_utf8("xref\n0 "@ + dec_spec(n + 1) + "\n"@) + encode_utf8("0000000000 65535 f \n"@) + xref_rows(
        objs,
        n,
    ) + encode_utf8("trailer\n<< /Size "@ + dec_spec(n + 1) + " /Root 1 0 R >>\nstartxref\n"@ + dec_spec(body.len()) + "\n%%EOF\n"@)
}

fn push_text(out: &mut Vec<u8>, s: &str)
    ensures
        final(out)@ == old(out)@ + encode_utf8(s@),
{
    let b = s.as_bytes();
    let ghost base = out@;
    let mut i: usize = 0;
    while i < b.len()
        invariant
            i <= b@.len(),
            b@ == encode_utf8(s@),
            out@ == base + b@.take(i as int),
        decreases b.len() - i,
    {
        out.push(b[i]);
        assert(b@.take(i + 1) =~= b@.take(i as int).push(b@[i as int]));
        i = i + 1;
    }
    assert(b@.take(i as int) =~= b@);
}

fn dec_string(n: u64) -> (r: String)
    ensures
        r@ == dec_spec(n as nat),
{
    string_of(dec(n).as_slice())
}

fn kids(count: usize) -> (r: String)
    requires
        count <= usize::MAX / 43 + 1,
    ensures
        r@ == kids_text(count as nat),
{
    let mut parts: Vec<Vec<char>> = Vec::new();
    let mut i: usize = 0;
    let ghost want = Seq::new(count as nat, |i: int| dec_spec((4 + 2 * i) as nat) + " 0 R"@);
    while i < count
        invariant
            i <= count,
            count <= usize::MAX / 43 + 1,
            want == Seq::new(count as nat, |i: int| dec_spec((4 + 2 * i) as nat) + " 0 R"@),
            views(parts@) == want.take(i as int),
        decreases count - i,
    {
        let mut p = dec(4 + 2 * (i as u64));
        push_str(&mut p, " 0 R");
        let ghost before = views(parts@);
        parts.push(p);
        assert(views(parts@) =~= before.push(want[i as int]));
        assert(want.take(i + 1) =~= want.take(i as int).push(want[i as int]));
        i = i + 1;
    }
    assert(want.take(i as int) =~= want);
    let sep = chars_of(" ");
    string_of(join(parts.as_slice(), sep.as_slice()).as_slice())
}

proof fn lemma_digit_ascii(d: int)
    requires
        0 <= d < 10,
    ensures
        '\0' <= crate::text::digit_char(d) <= '\u{7f}',
{
    let u = (d + 48) as u32;
    assert(48 <= u < 58);
    vstd::utf8::char_u32_cast(u as char, u);
}

proof fn lemma_dec_ascii(n: nat)
    ensures
        is_ascii_chars(dec_spec(n)),
    decreases n,
{
    if n < 10 {
        lemma_digit_ascii(n as int);
    } else {
        lemma_dec_ascii(n / 10);
        lemma_digit_ascii((n % 10) as int);
        assert forall|i: int| 0 <= i < dec_spec(n).len() implies '\0' <= #[trigger] dec_spec(n)[i] <= '\u{7f}' by {
            if i < dec_spec(n / 10).len() {
                assert(dec_spec(n)[i] == dec_spec(n / 10)[i]);
            }
        }
    }
}

proof fn lemma_hex_digit_ascii(d: nat)
    requires
        d < 16,
    ensures
        '\0' <= crate::cli::java::hex_digit(d) <= '\u{7f}',
{
    let u: u32 = if d < 10 {
        (d + 48) as u32
    } else {
        (d + 55) as u32
    };
    assert(u < 128);
    vstd::utf8::char_u32_cast(u as char, u);
}

proof fn lemma_hex4_ascii(u: nat)
    ensures
        is_ascii_chars(crate::cli::java::hex4(u)),
{
    lemma_hex_digit_ascii((u / 4096) % 16);
    lemma_hex_digit_ascii((u / 256) % 16);
    lemma_hex_digit_ascii((u / 16) % 16);
    lemma_hex_digit_ascii(u % 16);
}

proof fn lemma_concat_ascii(a: Seq<char>, b: Seq<char>)
    requires
        is_ascii_chars(a),
        is_ascii_chars(b),
    ensures
        is_ascii_chars(a + b),
{
    assert forall|i: int| 0 <= i < (a + b).len() implies '\0' <= #[trigger] (a + b)[i] <= '\u{7f}' by {
        if i < a.len() {
            assert((a + b)[i] == a[i]);
        } else {
            assert((a + b)[i] == b[i - a.len()]);
        }
    }
}

proof fn lemma_hex_ascii(s: Seq<char>)
    ensures
        is_ascii_chars(utf16_hex(s)),
    decreases s.len(),
{
    if s.len() > 0 {
        lemma_hex_ascii(s.drop_last());
        let c = s.last();
        let cp = c as u32 as nat;
        if cp < 0x10000 {
            lemma_hex4_ascii(cp);
        } else {
            let v = (cp - 0x10000) as nat;
            lemma_hex4_ascii(0xD800 + v / 1024);
            lemma_hex4_ascii(0xDC00 + v % 1024);
            lemma_concat_ascii(crate::cli::java::hex4(0xD800 + v / 1024), crate::cli::java::hex4(0xDC00 + v % 1024));
        }
        lemma_concat_ascii(utf16_hex(s.drop_last()), crate::cli::java::utf16_hex_char(c));
    }
}

fn page_stream_text(page: usize, lines: &[String], start: usize, end: usize) -> (r: String)
    requires
        start <= end <= lines@.len(),
        end - start <= 43,
    ensures
        r@ == page_stream(page as int, lines@.subrange(start as int, end as int).map_values(|s: String| s@)),
        is_ascii_chars(r@),
{
    let ghost ls = lines@.subrange(start as int, end as int).map_values(|s: String| s@);
    let mut out: Vec<char> = Vec::new();
    let mut li: usize = 0;
    assert(ls.take(0) =~= Seq::<Seq<char>>::empty());
    while li < end - start
        invariant
            start <= end <= lines@.len(),
            end - start <= 43,
            li <= end - start,
            ls == lines@.subrange(start as int, end as int).map_values(|s: String| s@),
            out@ == page_stream(page as int, ls.take(li as int)),
            is_ascii_chars(out@),
        decreases end - start - li,
    {
        let ghost before = out@;
        let size: u64 = if page == 0 && li == 0 {
            16
        } else {
            10
        };
        push_str(&mut out, "BT\n/F1 ");
        push_all(&mut out, dec(size).as_slice());
        push_str(&mut out, " Tf\n50 ");
        push_all(&mut out, dec((800 - 17 * li) as u64).as_slice());
        push_str(&mut out, " Td\n<");
        let hex = utf16be_hex(lines[start + li].as_str());
        push_str(&mut out, hex.as_str());
        push_str(&mut out, "> Tj\nET\n");
        proof {
            assert(ls[li as int] == lines@[start + li]@);
            assert(ls.take(li + 1).drop_last() =~= ls.take(li as int));
            assert(ls.take(li + 1).last() == ls[li as int]);
            assert(out@ =~= page_stream(page as int, ls.take(li as int)) + line_ops(page as int, li as int, ls[li as int]));
            reveal_strlit("BT\n/F1 ");
            reveal_strlit(" Tf\n50 ");
            reveal_strlit(" Td\n<");
            reveal_strlit("> Tj\nET\n");
            let size_n: nat = if page == 0 && li == 0 {
                16
            } else {
                10
            };
            lemma_dec_ascii(size_n);
            lemma_dec_ascii((800 - 17 * li) as nat);
            lemma_hex_ascii(ls[li as int]);
            let parts = "BT\n/F1 "@ + dec_spec(size_n) + " Tf\n50 "@ + dec_spec((800 - 17 * li) as nat) + " Td\n<"@ + utf16_hex(ls[li as int]);
            lemma_concat_ascii(before, "BT\n/F1 "@);
            lemma_concat_ascii(before + "BT\n/F1 "@, dec_spec(size_n));
            lemma_concat_ascii(before + "BT\n/F1 "@ + dec_spec(size_n), " Tf\n50 "@);
            lemma_concat_ascii(before + "BT\n/F1 "@ + dec_spec(size_n) + " Tf\n50 "@, dec_spec((800 - 17 * li) as nat));
            lemma_concat_ascii(before + "BT\n/F1 "@ + dec_spec(size_n) + " Tf\n50 "@ + dec_spec((800 - 17 * li) as nat), " Td\n<"@);
            lemma_concat_ascii(before + "BT\n/F1 "@ + dec_spec(size_n) + " Tf\n50 "@ + dec_spec((800 - 17 * li) as nat) + " Td\n<"@, utf16_hex(ls[li as int]));
            lemma_concat_ascii(before + parts, "> Tj\nET\n"@);
            assert(out@ =~= before + parts + "> Tj\nET\n"@);
        }
        li = li + 1;
    }
    assert(ls.take(li as int) =~= ls);
    string_of(out.as_slice())
}

fn page_pair(idx: usize, lines: &[String]) -> (r: (String, String))
    requires
        idx < chunk_count(lines@.len()),
    ensures
        r.0@ == page_obj_text(idx as int),
        r.1@ == content_obj_text(page_stream(idx as int, chunk(lines@.map_values(|s: String| s@), idx as int))),
{
    let ghost lv = lines@.map_values(|s: String| s@);
    let n = lines.len();
    let mut page: Vec<char> = chars_of(
        "<< /Type /Page /Parent 2 0 R /MediaBox [0 0 595 842] /Resources << /Font << /F1 3 0 R >> >> /Contents ",
    );
    push_all(&mut page, dec(5 + 2 * (idx as u64)).as_slice());
    push_str(&mut page, " 0 R >>");
    assert(43 * idx <= n) by (nonlinear_arith)
        requires
            idx < n / 43 + if n % 43 > 0 {
                1nat
            } else {
                0nat
            },
    ;
    let start = 43 * idx;
    let end = if n - start > 43 {
        start + 43
    } else {
        n
    };
    let stream = page_stream_text(idx, lines, start, end);
    proof {
        assert(lines@.subrange(start as int, end as int).map_values(|s: String| s@) =~= chunk(lv, idx as int));
    }
    proof {
        vstd::utf8::is_ascii_chars_encode_utf8(stream@);
    }
    let blen = chars_of(stream.as_str()).len();
    assert(blen as nat == encode_utf8(stream@).len());
    let mut content: Vec<char> = chars_of("<< /Length ");
    push_all(&mut content, dec(blen as u64).as_slice());
    push_str(&mut content, " >>\nstream\n");
    push_str(&mut content, stream.as_str());
    push_str(&mut content, "endstream");
    (string_of(page.as_slice()), string_of(content.as_slice()))
}

/// The objects of the document, as text.
fn objects(lines: &[String]) -> (r: Vec<String>)
    ensures
        string_views(r@) == object_texts(lines@.map_values(|s: String| s@)),
        r@.len() < usize::MAX,
{
    let ghost lv = lines@.map_values(|s: String| s@);
    let n = lines.len();
    let chunks: usize = n / 43 + if n % 43 > 0 {
        1
    } else {
        0
    };
    let pc: usize = if n == 0 {
        1
    } else {
        chunks
    };
    let mut objs: Vec<String> = Vec::new();
    objs.push("<< /Type /Catalog /Pages 2 0 R >>".to_owned());
    let mut pages: Vec<char> = chars_of("<< /Type /Pages /Kids [");
    let k = kids(pc);
    push_str(&mut pages, k.as_str());
    push_str(&mut pages, "] /Count ");
    push_all(&mut pages, dec(pc as u64).as_slice());
    push_str(&mut pages, " >>");
    objs.push(string_of(pages.as_slice()));
    objs.push(
        "<< /Type /Font /Subtype /Type0 /BaseFont /STSong-Light /Encoding /UniGB-UCS2-H /DescendantFonts [<< /Type /Font /Subtype /CIDFontType0 /BaseFont /STSong-Light /CIDSystemInfo << /Registry (Adobe) /Ordering (GB1) /Supplement 5 >> /FontDescriptor << /Type /FontDescriptor /FontName /STSong-Light /Flags 4 /FontBBox [0 -200 1000 900] /ItalicAngle 0 /Ascent 880 /Descent -120 /CapHeight 700 /StemV 80 >> >>] >>".to_owned(),
    );
    assert(string_views(objs@) =~= seq![catalog_text(), pages_text(lv.len()), font_text()]);
    let ghost head = string_views(objs@);
    let mut idx: usize = 0;
    assert(page_objects(lv, 0) =~= Seq::<Seq<char>>::empty());
    assert(head + page_objects(lv, 0) =~= head);
    while idx < chunks
        invariant
            idx <= chunks,
            n == lines@.len(),
            chunks == chunk_count(n as nat),
            lv == lines@.map_values(|s: String| s@),
            string_views(objs@) == head + page_objects(lv, idx as nat),
        decreases chunks - idx,
    {
        let (ps, cs) = page_pair(idx, lines);
        let ghost before = string_views(objs@);
        objs.push(ps);
        objs.push(cs);
        proof {
            assert(ps@ == page_obj_text(idx as int));
            assert(cs@ == content_obj_text(page_stream(idx as int, chunk(lv, idx as int))));
            assert(string_views(objs@) =~= before + seq![ps@, cs@]);
            assert(page_objects(lv, (idx + 1) as nat) == page_objects(lv, idx as nat) + seq![
                page_obj_text(idx as int),
                content_obj_text(page_stream(idx as int, chunk(lv, idx as int))),
            ]);
        }
        idx = idx + 1;
    }
    proof {
        lemma_page_objects_len(lv, chunks as nat);
    }
    objs
}

proof fn lemma_page_objects_len(lines: Seq<Seq<char>>, k: nat)
    ensures
        page_objects(lines, k).len() == 2 * k,
    decreases k,
{
    if k > 0 {
        lemma_page_objects_len(lines, (k - 1) as nat);
    }
}

fn push_header(pdf: &mut Vec<u8>)
    ensures
        final(pdf)@ == old(pdf)@ + pdf_header(),
{
    let ghost base = pdf@;
    pdf.push(37u8);
    pdf.push(80u8);
    pdf.push(68u8);
    pdf.push(70u8);
    pdf.push(45u8);
    pdf.push(49u8);
    pdf.push(46u8);
    pdf.push(52u8);
    pdf.push(10u8);
    pdf.push(37u8);
    pdf.push(0xE2u8);
    pdf.push(0xE3u8);
    pdf.push(0xCFu8);
    pdf.push(0xD3u8);
    pdf.push(10u8);
    assert(pdf@ =~= base + pdf_header());
}

fn write_objects(pdf: &mut Vec<u8>, objs: &Vec<String>) -> (offsets: Vec<usize>)
    requires
        old(pdf)@ == pdf_header(),
        objs@.len() < usize::MAX,
    ensures
        final(pdf)@ == pdf_header() + obj_entries(string_views(objs@)),
        offsets@.len() == objs@.len(),
        forall|j: int| 0 <= j < objs@.len() ==> #[trigger] offsets@[j] == obj_offset(string_views(objs@), j),
{
    let ghost ov = string_views(objs@);
    let mut offsets: Vec<usize> = Vec::new();
    let mut k: usize = 0;
    assert(ov.take(0) =~= Seq::<Seq<char>>::empty());
    assert(pdf@ =~= pdf_header() + obj_entries(ov.take(0)));
    while k < objs.len()
        invariant
            k <= objs@.len(),
            objs@.len() < usize::MAX,
            ov == string_views(objs@),
            pdf@ == pdf_header() + obj_entries(ov.take(k as int)),
            offsets@.len() == k,
            forall|j: int| 0 <= j < k ==> #[trigger] offsets@[j] == obj_offset(ov, j),
        decreases objs.len() - k,
    {
        offsets.push(pdf.len());
        let ghost before = pdf@;
        let mut head = dec((k + 1) as u64);
        push_str(&mut head, " 0 obj\n");
        let hs = string_of(head.as_slice());
        push_text(pdf, hs.as_str());
        push_text(pdf, objs[k].as_str());
        push_text(pdf, "\nendobj\n");
        proof {
            assert(ov.take(k + 1).drop_last() =~= ov.take(k as int));
            assert(ov.take(k + 1).last() == ov[k as int]);
            assert(ov[k as int] == objs@[k as int]@);
            assert(pdf@ =~= before + obj_entry(k as int, ov[k as int]));
            assert(pdf@ =~= pdf_header() + obj_entries(ov.take(k + 1)));
        }
        k = k + 1;
    }
    assert(ov.take(k as int) =~= ov);
    offsets
}

fn padded_row(offset: usize) -> (r: String)
    ensures
        r@ == zero_pad10(dec_spec(offset as nat)) + " 00000 n \n"@,
{
    let d = dec(offset as u64);
    let mut row: Vec<char> = Vec::new();
    if d.len() < 10 {
        let mut z: usize = d.len();
        while z < 10
            invariant
                d.len() <= z <= 10,
                row@ == Seq::new((z - d.len()) as nat, |i: int| '0'),
            decreases 10 - z,
        {
            row.push('0');
            assert(row@ =~= Seq::new((z + 1 - d.len()) as nat, |i: int| '0'));
            z = z + 1;
        }
    }
    let ghost zeros = row@;
    push_all(&mut row, d.as_slice());
    push_str(&mut row, " 00000 n \n");
    assert(row@ =~= zeros + d@ + " 00000 n \n"@);
    assert(zeros + d@ =~= zero_pad10(d@));
    string_of(row.as_slice())
}

fn write_xref_rows(pdf: &mut Vec<u8>, offsets: &Vec<usize>, Ghost(ov): Ghost<Seq<Seq<char>>>)
    requires
        offsets@.len() == ov.len(),
        forall|m: int| 0 <= m < ov.len() ==> #[trigger] offsets@[m] == obj_offset(ov, m),
    ensures
        final(pdf)@ == old(pdf)@ + xref_rows(ov, ov.len()),
{
    let ghost base = pdf@;
    let mut j: usize = 0;
    assert(base + xref_rows(ov, 0) =~= base);
    while j < offsets.len()
        invariant
            j <= offsets@.len(),
            offsets@.len() == ov.len(),
            forall|m: int| 0 <= m < ov.len() ==> #[trigger] offsets@[m] == obj_offset(ov, m),
            pdf@ == base + xref_rows(ov, j as nat),
        decreases offsets.len() - j,
    {
        let rs = padded_row(offsets[j]);
        push_text(pdf, rs.as_str());
        assert(pdf@ =~= base + xref_rows(ov, (j + 1) as nat));
        j = j + 1;
    }
}

/// The PDF file for the report lines.
pub fn build_cjk_pdf(lines: &[String]) -> (r: Vec<u8>)
    ensures
        r@ == pdf_bytes(lines@.map_values(|s: String| s@)),
{
    let objs = objects(lines);
    let ghost ov = string_views(objs@);
    let mut pdf: Vec<u8> = Vec::new();
    push_header(&mut pdf);
    assert(pdf@ =~= pdf_header());
    let offsets = write_objects(&mut pdf, &objs);
    let ghost body = pdf@;
    let xref_offset = pdf.len();
    let n = objs.len();
    let mut x: Vec<char> = chars_of("xref\n0 ");
    push_all(&mut x, dec((n + 1) as u64).as_slice());
    push_str(&mut x, "\n");
    let xs = string_of(x.as_slice());
    push_text(&mut pdf, xs.as_str());
    push_text(&mut pdf, "0000000000 65535 f \n");
    write_xref_rows(&mut pdf, &offsets, Ghost(ov));
    let mut t: Vec<char> = chars_of("trailer\n<< /Size ");
    push_all(&mut t, dec((n + 1) as u64).as_slice());
    push_str(&mut t, " /Root 1 0 R >>\nstartxref\n");
    push_all(&mut t, dec(xref_offset as u64).as_slice());
    push_str(&mut t, "\n%%EOF\n");
    let ts = string_of(t.as_slice());
    push_text(&mut pdf, ts.as_str());
    pdf
}

} // verus!
