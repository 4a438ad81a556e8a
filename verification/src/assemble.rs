//! The collection assembler: computes the uniform page width from the
//! rendered images, synthesizes the collection document that references
//! every render, and installs it into the file catalog for the final
//! compilation.
use vstd::prelude::*;
use crate::files::{FileStore, main_id_view, virtual_id_view, str_eq};
use crate::schedule::Render;
use crate::text::{dec_digits, dec_string, digit_char, millipoint_digits, millipoint_string};

verus! {

/// The fixed minimum page content width, in millipoints (20 cm).
pub const MIN_PAGE_WIDTH_MPT: u64 = 566929;

/// One render's pixel width in millipoints at the given resolution.
pub open spec fn width_mpt(r: Render, ppi: u32) -> int {
    (r.width as int) * 72000 / (ppi as int)
}

/// The widest render, in millipoints; zero when there is none.
pub open spec fn max_width_mpt(rs: Seq<Render>, ppi: u32) -> int
    decreases rs.len(),
{
    if rs.len() == 0 {
        0
    } else {
        let rest = max_width_mpt(rs.drop_last(), ppi);
        if width_mpt(rs.last(), ppi) > rest {
            width_mpt(rs.last(), ppi)
        } else {
            rest
        }
    }
}

/// The page content width: every render's pixel width converted to
/// points through `pixels / ppi * 72`, the maximum taken, floored at the
/// given minimum.
pub open spec fn content_width_mpt(rs: Seq<Render>, ppi: u32, min_mpt: u64) -> int {
    if max_width_mpt(rs, ppi) > min_mpt {
        max_width_mpt(rs, ppi)
    } else {
        min_mpt as int
    }
}

/// Computes the page content width in millipoints.
pub fn page_content_width_mpt(renders: &Vec<Render>, ppi: u32, min_mpt: u64) -> (r: u64)
    requires
        ppi > 0,
    ensures
        r == content_width_mpt(renders@, ppi, min_mpt),
{
    let mut widest: u64 = 0;
    let n = renders.len();
    let mut i: usize = 0;
    proof {
        assert(renders@.take(0) =~= Seq::<Render>::empty());
    }
    while i < n
        invariant
            n == renders.len(),
            i <= n,
            ppi > 0,
            widest == max_width_mpt(renders@.take(i as int), ppi),
            widest <= 0xffff_ffffu64 * 72000,
        decreases n - i,
    {
        let w = crate::pixels_to_millipoints(renders[i].width, ppi);
        proof {
            assert(renders@.take(i + 1).drop_last() =~= renders@.take(i as int));
            assert(renders@.take(i + 1).last() == renders@[i as int]);
        }
        if w > widest {
            widest = w;
        }
        i += 1;
    }
    proof {
        assert(renders@.take(n as int) =~= renders@);
    }
    if widest > min_mpt {
        widest
    } else {
        min_mpt
    }
}

/// The virtual file name of the `n`-th rendered image.
pub open spec fn image_name_chars(n: nat) -> Seq<char> {
    "render-"@ + dec_digits(n) + ".png"@
}

/// Builds the virtual file name of the `n`-th rendered image.
pub fn image_name(n: u64) -> (r: String)
    ensures
        r@ == image_name_chars(n as nat),
{
    let mut s = "render-".to_owned();
    let digits = dec_string(n);
    s.append(digits.as_str());
    s.append(".png");
    proof {
        assert(s@ =~= image_name_chars(n as nat));
    }
    s
}

/// Decimal digit sequences are never empty.
proof fn lemma_dec_digits_len(n: nat)
    ensures
        dec_digits(n).len() >= 1,
    decreases n,
{
    if n >= 10 {
        lemma_dec_digits_len(n / 10);
    }
}

/// Distinct numbers have distinct decimal digit sequences.
proof fn lemma_dec_digits_injective(a: nat, b: nat)
    requires
        a != b,
    ensures
        dec_digits(a) != dec_digits(b),
    decreases a + b,
{
    if a < 10 && b < 10 {
        assert(dec_digits(a)[0] == digit_char(a));
        assert(dec_digits(b)[0] == digit_char(b));
    } else if a < 10 {
        lemma_dec_digits_len(b / 10);
        assert(dec_digits(a).len() == 1);
        assert(dec_digits(b).len() >= 2);
    } else if b < 10 {
        lemma_dec_digits_len(a / 10);
        assert(dec_digits(b).len() == 1);
        assert(dec_digits(a).len() >= 2);
    } else {
        if a % 10 != b % 10 {
            assert(dec_digits(a).last() == digit_char(a % 10));
            assert(dec_digits(b).last() == digit_char(b % 10));
        } else {
            lemma_dec_digits_injective(a / 10, b / 10);
            assert(dec_digits(a).drop_last() =~= dec_digits(a / 10));
            assert(dec_digits(b).drop_last() =~= dec_digits(b / 10));
        }
    }
}

/// Distinct renders get distinct image names.
pub proof fn lemma_image_name_injective(a: nat, b: nat)
    requires
        a != b,
    ensures
        image_name_chars(a) != image_name_chars(b),
{
    lemma_dec_digits_injective(a, b);
    reveal_strlit("render-");
    reveal_strlit(".png");
    if image_name_chars(a) == image_name_chars(b) {
        let da = dec_digits(a);
        let db = dec_digits(b);
        assert(image_name_chars(a).len() == 7 + da.len() + 4);
        assert(image_name_chars(b).len() == 7 + db.len() + 4);
        assert(da.len() == db.len());
        assert forall|k: int| 0 <= k < da.len() implies da[k] == db[k] by {
            assert(image_name_chars(a)[7 + k] == da[k]);
            assert(image_name_chars(b)[7 + k] == db[k]);
        }
        assert(da =~= db);
    }
}

/// The style part of a variant description.
pub open spec fn style_name(style: u8) -> Seq<char> {
    if style == 0 {
        "normal"@
    } else if style == 1 {
        "italic"@
    } else {
        "oblique"@
    }
}

/// The description of one variant shown above its render.
pub open spec fn variant_desc_chars(weight: u16, stretch: u16, style: u8) -> Seq<char> {
    "weight "@ + dec_digits(weight as nat) + ", stretch "@ + dec_digits(stretch as nat) + ", "@
        + style_name(style)
}

/// Builds the description of one variant.
pub fn variant_desc(weight: u16, stretch: u16, style: u8) -> (r: String)
    ensures
        r@ == variant_desc_chars(weight, stretch, style),
{
    let mut s = "weight ".to_owned();
    let w = dec_string(weight as u64);
    s.append(w.as_str());
    s.append(", stretch ");
    let t = dec_string(stretch as u64);
    s.append(t.as_str());
    s.append(", ");
    if style == 0 {
        s.append("normal");
    } else if style == 1 {
        s.append("italic");
    } else {
        s.append("oblique");
    }
    proof {
        assert(s@ =~= variant_desc_chars(weight, stretch, style));
    }
    s
}

/// Whether render `i` opens a new family: it is the first render, or its
/// family differs from the previous render's.
pub open spec fn first_of_family(rs: Seq<Render>, i: int) -> bool {
    i == 0 || rs[i - 1].variant@.family != rs[i].variant@.family
}

/// The page synthesized for render `i`: on the first page of a family, a
/// hidden heading that feeds the outline; then a header row with the
/// family name and the running page number, the variant description, and
/// the image sized to its point dimensions.
pub open spec fn page_chars(rs: Seq<Render>, i: int, ppi: u32) -> Seq<char>
    recommends
        0 <= i < rs.len(),
        ppi > 0,
{
    let r = rs[i];
    "\n#page[\n"@ + (if first_of_family(rs, i) {
        "#place(hide[= "@ + r.variant@.family + "])\n"@
    } else {
        Seq::<char>::empty()
    }) + "#grid(columns: 2, column-gutter: 1fr, text(size: 1.2em, [*#counter(heading).display((n, ..) => n) "@
        + r.variant@.family + "*]), counter(page).display(),)\n== "@ + variant_desc_chars(
        r.variant@.weight,
        r.variant@.stretch,
        r.variant@.style,
    ) + "\n#image(width: "@ + millipoint_digits(width_mpt(r, ppi) as nat) + "pt, height: "@
        + millipoint_digits(((r.height as int) * 72000 / (ppi as int)) as nat) + "pt, \""@
        + image_name_chars(i as nat) + "\")\n]\n"@
}

/// The pages for every render, in order.
pub open spec fn pages_chars(rs: Seq<Render>, k: int, ppi: u32) -> Seq<char>
    recommends
        0 <= k <= rs.len(),
    decreases k,
{
    if k <= 0 {
        Seq::<char>::empty()
    } else {
        pages_chars(rs, k - 1, ppi) + page_chars(rs, k - 1, ppi)
    }
}

/// The head of the collection document: document set-up, the page width,
/// and the outline of families.
pub open spec fn header_chars(width: nat) -> Seq<char> {
    "#let margin = 1cm\n#set document(author: \"font comparison\")\n#set page(width: "@
        + millipoint_digits(width) + "pt + 2 * margin, height: auto, margin: margin)\n#set heading(numbering: \"1.1\")\n#show heading: set text(size: 16pt)\n#outline(indent: auto, title: [Fonts])\n"@
}

/// The whole collection document.
pub open spec fn collection_chars(rs: Seq<Render>, ppi: u32) -> Seq<char> {
    header_chars(content_width_mpt(rs, ppi, MIN_PAGE_WIDTH_MPT) as nat) + pages_chars(
        rs,
        rs.len() as int,
        ppi,
    )
}

/// Synthesizes the collection document's source text.
pub fn collection_source(renders: &Vec<Render>, ppi: u32) -> (r: String)
    requires
        ppi > 0,
    ensures
        r@ == collection_chars(renders@, ppi),
{
    let width = page_content_width_mpt(renders, ppi, MIN_PAGE_WIDTH_MPT);
    let mut s = "#let margin = 1cm\n#set document(author: \"font comparison\")\n#set page(width: "
        .to_owned();
    let w = millipoint_string(width);
    s.append(w.as_str());
    s.append(
        "pt + 2 * margin, height: auto, margin: margin)\n#set heading(numbering: \"1.1\")\n#show heading: set text(size: 16pt)\n#outline(indent: auto, title: [Fonts])\n",
    );
    proof {
        assert(s@ =~= header_chars(content_width_mpt(renders@, ppi, MIN_PAGE_WIDTH_MPT) as nat));
    }
    let ghost header = s@;
    proof {
        assert(s@ =~= header + pages_chars(renders@, 0, ppi));
    }
    let n = renders.len();
    let mut i: usize = 0;
    while i < n
        invariant
            n == renders.len(),
            i <= n,
            ppi > 0,
            s@ == header + pages_chars(renders@, i as int, ppi),
        decreases n - i,
    {
        let mut p = "\n#page[\n".to_owned();
        let first = i == 0 || !str_eq(
            renders[i - 1].variant.family.as_str(),
            renders[i].variant.family.as_str(),
        );
        if first {
            p.append("#place(hide[= ");
            p.append(renders[i].variant.family.as_str());
            p.append("])\n");
        }
        p.append(
            "#grid(columns: 2, column-gutter: 1fr, text(size: 1.2em, [*#counter(heading).display((n, ..) => n) ",
        );
        p.append(renders[i].variant.family.as_str());
        p.append("*]), counter(page).display(),)\n== ");
        let desc = variant_desc(
            renders[i].variant.weight,
            renders[i].variant.stretch,
            renders[i].variant.style,
        );
        p.append(desc.as_str());
        p.append("\n#image(width: ");
        let wpt = crate::pixels_to_millipoints(renders[i].width, ppi);
        let ws = millipoint_string(wpt);
        p.append(ws.as_str());
        p.append("pt, height: ");
        let hpt = crate::pixels_to_millipoints(renders[i].height, ppi);
        let hs = millipoint_string(hpt);
        p.append(hs.as_str());
        p.append("pt, \"");
        let name = image_name(i as u64);
        p.append(name.as_str());
        p.append("\")\n]\n");
        proof {
            assert(first == first_of_family(renders@, i as int));
            assert(p@ =~= page_chars(renders@, i as int, ppi));
        }
        s.append(p.as_str());
        proof {
            assert(pages_chars(renders@, i + 1, ppi) =~= pages_chars(renders@, i as int, ppi)
                + page_chars(renders@, i as int, ppi));
            assert(s@ =~= header + pages_chars(renders@, i + 1, ppi));
        }
        i += 1;
    }
    proof {
        assert(header =~= header_chars(content_width_mpt(renders@, ppi, MIN_PAGE_WIDTH_MPT) as nat));
        assert(s@ =~= collection_chars(renders@, ppi));
    }
    s
}

/// The virtual files carrying the rendered images: the `n`-th render's
/// bytes under the `n`-th image name.
pub fn render_file_entries(renders: &Vec<Render>) -> (r: Vec<(String, Vec<u8>)>)
    ensures
        r.len() == renders.len(),
        forall|j: int|
            0 <= j < r.len() ==> (#[trigger] r[j]).0@ == image_name_chars(j as nat) && r[j].1@
                == renders[j].bytes@,
        forall|a: int, b: int| 0 <= a < b < r.len() ==> #[trigger] r[a].0@ != #[trigger] r[b].0@,
{
    let mut r: Vec<(String, Vec<u8>)> = Vec::new();
    let n = renders.len();
    let mut i: usize = 0;
    while i < n
        invariant
            n == renders.len(),
            i <= n,
            r.len() == i,
            forall|j: int|
                0 <= j < i ==> (#[trigger] r[j]).0@ == image_name_chars(j as nat) && r[j].1@
                    == renders[j].bytes@,
        decreases n - i,
    {
        let name = image_name(i as u64);
        let bytes = renders[i].bytes.clone();
        proof {
            assert(bytes@ =~= renders@[i as int].bytes@);
        }
        r.push((name, bytes));
        i += 1;
    }
    proof {
        assert forall|a: int, b: int| 0 <= a < b < r.len() implies #[trigger] r[a].0@
            != #[trigger] r[b].0@ by {
            lemma_image_name_injective(a as nat, b as nat);
        }
    }
    r
}

/// Installs the collection into the catalog: the synthesized document
/// becomes the main file and every render's image becomes a virtual
/// file, named by its sequence index.
pub fn install_collection(files: &mut FileStore, renders: &Vec<Render>, ppi: u32)
    requires
        old(files).wf(),
        ppi > 0,
    ensures
        final(files).wf(),
        final(files).root@ == "/virtual"@,
        final(files).main@ == main_id_view(),
        final(files).at(main_id_view()) == vstd::utf8::encode_utf8(
            collection_chars(renders@, ppi),
        ),
        forall|j: int|
            0 <= j < renders.len() ==> #[trigger] final(files).has(
                virtual_id_view(image_name_chars(j as nat)),
            ) && final(files).at(virtual_id_view(image_name_chars(j as nat)))
                == renders[j].bytes@,
{
    let source = collection_source(renders, ppi);
    let extra = render_file_entries(renders);
    proof {
        assert forall|j: int| 0 <= j < extra.len() implies #[trigger] extra[j].0@
            != "main.typ"@ by {
            reveal_strlit("render-");
            reveal_strlit("main.typ");
            assert(extra[j].0@[0] == 'r');
            assert("main.typ"@[0] == 'm');
        }
    }
    let ghost extra_view = extra@;
    files.replace_all(source, extra);
    proof {
        assert forall|j: int| 0 <= j < renders.len() implies #[trigger] files.has(
            virtual_id_view(image_name_chars(j as nat)),
        ) && files.at(virtual_id_view(image_name_chars(j as nat))) == renders[j].bytes@ by {
            assert(extra_view[j].0@ == image_name_chars(j as nat));
            assert(files.has(virtual_id_view(extra_view[j].0@)));
            assert(files.at(virtual_id_view(extra_view[j].0@)) == extra_view[j].1@);
        }
    }
}

} // verus!
