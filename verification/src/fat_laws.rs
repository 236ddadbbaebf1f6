//! What holds of the splice whatever the captured arguments are.

use crate::argv::{
    last_admitted, lemma_last_admitted_upto, lemma_selected_upto, selected, selected_upto, Probe,
};
use crate::fat::{
    after_driver, fat_link_line, in_span, span_carrier, span_closer, span_opener, spliced,
    whole_archive_span, without_span, without_span_upto,
};
use crate::target::LinkerFlavor;
use vstd::prelude::*;

verus! {

/// How far into the span the argument that names the archive stands.
pub open spec fn carrier_offset(flavor: LinkerFlavor) -> int {
    match flavor {
        LinkerFlavor::Msvc => 0,
        _ => 1,
    }
}

/// The arguments before the span in a spliced list: those of `base` that
/// stay, up to the last `.o` argument.
pub open spec fn splice_point(flavor: LinkerFlavor, archive: Seq<char>, base: Seq<Seq<char>>) -> int {
    last_admitted(
        selected(without_span(flavor, archive, base), Probe::Suffix(".rlib"@), false),
        Probe::Suffix(".o"@),
    )
}

/// An archive path that ends in `.a` gives a carrier that is no `.rlib`
/// argument and differs from the span's opener and closer.
proof fn lemma_carrier_stands_apart(flavor: LinkerFlavor, archive: Seq<char>)
    requires
        ".a"@.is_suffix_of(archive),
    ensures
        !".rlib"@.is_suffix_of(span_carrier(flavor, archive)),
        span_opener(flavor) != Some(span_carrier(flavor, archive)),
        span_closer(flavor) != Some(span_carrier(flavor, archive)),
{
    reveal_strlit(".a");
    reveal_strlit(".rlib");
    reveal_strlit("/WHOLEARCHIVE:");
    reveal_strlit("-Wl,--whole-archive");
    reveal_strlit("--whole-archive");
    reveal_strlit("-Wl,-force_load");
    reveal_strlit("-Wl,--no-whole-archive");
    reveal_strlit("--no-whole-archive");
    let carrier = span_carrier(flavor, archive);
    let n = archive.len() as int;
    assert(archive.subrange(n - 2, n)[1] == 'a');
    assert(archive[n - 1] == 'a');
    assert(carrier[carrier.len() - 1] == 'a');
    if ".rlib"@.is_suffix_of(carrier) {
        let m = carrier.len() as int;
        assert(carrier.subrange(m - 5, m)[4] == 'b');
    }
}

/// An argument that ends in `.rlib` is not the carrier of an archive that
/// ends in `.a`.
proof fn lemma_rlib_is_no_carrier(flavor: LinkerFlavor, archive: Seq<char>, a: Seq<char>)
    requires
        ".a"@.is_suffix_of(archive),
        ".rlib"@.is_suffix_of(a),
    ensures
        a != span_carrier(flavor, archive),
{
    lemma_carrier_stands_apart(flavor, archive);
}

/// What is left after a span was taken out holds no carrier.
proof fn lemma_without_span_upto(
    flavor: LinkerFlavor,
    archive: Seq<char>,
    args: Seq<Seq<char>>,
    upto: int,
)
    requires
        0 <= upto <= args.len(),
    ensures
        forall|j: int|
            0 <= j < without_span_upto(flavor, archive, args, upto).len() ==> (
            #[trigger] without_span_upto(flavor, archive, args, upto)[j]) != span_carrier(
                flavor,
                archive,
            ),
    decreases upto,
{
    if upto > 0 {
        lemma_without_span_upto(flavor, archive, args, upto - 1);
        let before = without_span_upto(flavor, archive, args, upto - 1);
        let now = without_span_upto(flavor, archive, args, upto);
        assert forall|j: int| 0 <= j < now.len() implies (#[trigger] now[j]) != span_carrier(
            flavor,
            archive,
        ) by {
            if j < before.len() {
                assert(now[j] == before[j]);
            } else {
                assert(!in_span(flavor, archive, args, upto - 1));
                assert(now[j] == args[upto - 1]);
            }
        }
    }
}

/// The arguments that stay when the archive is spliced in hold no carrier
/// and no `.rlib` argument.
proof fn lemma_clean(flavor: LinkerFlavor, archive: Seq<char>, base: Seq<Seq<char>>)
    ensures
        forall|j: int|
            #![trigger selected(without_span(flavor, archive, base), Probe::Suffix(".rlib"@), false)[j]]
            0 <= j < selected(
                without_span(flavor, archive, base),
                Probe::Suffix(".rlib"@),
                false,
            ).len() ==> {
                let a = selected(without_span(flavor, archive, base), Probe::Suffix(".rlib"@), false)[j];
                a != span_carrier(flavor, archive) && !".rlib"@.is_suffix_of(a)
            },
{
    let bare = without_span(flavor, archive, base);
    let clean = selected(bare, Probe::Suffix(".rlib"@), false);
    lemma_without_span_upto(flavor, archive, base, base.len() as int);
    lemma_selected_upto(bare, Probe::Suffix(".rlib"@), false, bare.len() as int);
    assert forall|j: int| 0 <= j < clean.len() implies (#[trigger] clean[j]) != span_carrier(
        flavor,
        archive,
    ) && !".rlib"@.is_suffix_of(clean[j]) by {
        assert(bare.contains(clean[j]));
        let w = choose|w: int| 0 <= w < bare.len() && bare[w] == clean[j];
        assert(bare[w] != span_carrier(flavor, archive));
    }
}

/// In a list made of `head`, the span, `kept` and `tail`, of which only the
/// span holds the carrier, the arguments that `in_span` marks are those of
/// the span.
proof fn lemma_span_positions(
    flavor: LinkerFlavor,
    archive: Seq<char>,
    head: Seq<Seq<char>>,
    kept: Seq<Seq<char>>,
    tail: Seq<Seq<char>>,
)
    requires
        flavor != LinkerFlavor::Unsupported,
        ".a"@.is_suffix_of(archive),
        forall|j: int| 0 <= j < head.len() ==> head[j] != span_carrier(flavor, archive),
        forall|j: int| 0 <= j < kept.len() ==> kept[j] != span_carrier(flavor, archive),
        forall|j: int| 0 <= j < tail.len() ==> tail[j] != span_carrier(flavor, archive),
    ensures
        forall|i: int|
            0 <= i < (head + whole_archive_span(flavor, archive) + kept + tail).len() ==> (in_span(
                flavor,
                archive,
                head + whole_archive_span(flavor, archive) + kept + tail,
                i,
            ) <==> head.len() <= i < head.len() + whole_archive_span(flavor, archive).len()),
        forall|i: int|
            0 <= i < (head + whole_archive_span(flavor, archive) + kept + tail).len() ==> ((head
                + whole_archive_span(flavor, archive) + kept + tail)[i] == span_carrier(
                flavor,
                archive,
            ) <==> i == head.len() + carrier_offset(flavor)),
{
    lemma_carrier_stands_apart(flavor, archive);
    let span = whole_archive_span(flavor, archive);
    let all = head + span + kept + tail;
    let carrier = span_carrier(flavor, archive);
    let h = head.len() as int;
    let n = span.len() as int;
    assert forall|i: int| 0 <= i < all.len() implies (all[i] == carrier <==> i == h
        + carrier_offset(flavor)) by {
        if i < h {
            assert(all[i] == head[i]);
        } else if i < h + n {
            assert(all[i] == span[i - h]);
        } else if i < h + n + kept.len() {
            assert(all[i] == kept[i - h - n]);
        } else {
            assert(all[i] == tail[i - h - n - kept.len()]);
        }
    }
    assert forall|i: int| 0 <= i < all.len() implies (in_span(flavor, archive, all, i) <==> h <= i
        < h + n) by {
        if h <= i < h + n {
            assert(all[i] == span[i - h]);
            if i + 1 < h + n {
                assert(all[i + 1] == span[i + 1 - h]);
            }
            if i - 1 >= h {
                assert(all[i - 1] == span[i - 1 - h]);
            }
        } else {
            if i + 1 < all.len() && all[i + 1] == carrier {
                assert(i + 1 == h + carrier_offset(flavor));
            }
            if i >= 1 && all[i - 1] == carrier {
                assert(i - 1 == h + carrier_offset(flavor));
            }
        }
    }
}

/// Taking the span out of a list made of `head`, the span, `kept` and `tail`
/// leaves `head`, `kept` and `tail`.
proof fn lemma_without_span_of_spliced(
    flavor: LinkerFlavor,
    archive: Seq<char>,
    head: Seq<Seq<char>>,
    kept: Seq<Seq<char>>,
    tail: Seq<Seq<char>>,
    upto: int,
)
    requires
        flavor != LinkerFlavor::Unsupported,
        ".a"@.is_suffix_of(archive),
        forall|j: int| 0 <= j < head.len() ==> head[j] != span_carrier(flavor, archive),
        forall|j: int| 0 <= j < kept.len() ==> kept[j] != span_carrier(flavor, archive),
        forall|j: int| 0 <= j < tail.len() ==> tail[j] != span_carrier(flavor, archive),
        0 <= upto <= (head + whole_archive_span(flavor, archive) + kept + tail).len(),
    ensures
        without_span_upto(
            flavor,
            archive,
            head + whole_archive_span(flavor, archive) + kept + tail,
            upto,
        ) == {
            let all = head + whole_archive_span(flavor, archive) + kept + tail;
            let h = head.len() as int;
            let n = whole_archive_span(flavor, archive).len() as int;
            if upto <= h {
                all.take(upto)
            } else if upto <= h + n {
                head
            } else {
                head + all.subrange(h + n, upto)
            }
        },
    decreases upto,
{
    let span = whole_archive_span(flavor, archive);
    let all = head + span + kept + tail;
    let h = head.len() as int;
    let n = span.len() as int;
    if upto > 0 {
        lemma_without_span_of_spliced(flavor, archive, head, kept, tail, upto - 1);
        lemma_span_positions(flavor, archive, head, kept, tail);
        let before = without_span_upto(flavor, archive, all, upto - 1);
        let now = without_span_upto(flavor, archive, all, upto);
        if upto <= h {
            assert(!in_span(flavor, archive, all, upto - 1));
            assert(now =~= all.take(upto));
        } else if upto <= h + n {
            assert(in_span(flavor, archive, all, upto - 1));
            assert(all.take(h) =~= head);
        } else {
            assert(!in_span(flavor, archive, all, upto - 1));
            assert(all.subrange(h + n, h + n) =~= Seq::<Seq<char>>::empty());
            assert(now =~= head + all.subrange(h + n, upto));
        }
    } else {
        assert(all.take(0) =~= Seq::<Seq<char>>::empty());
    }
}

/// Selecting from two lists in a row selects from each.
proof fn lemma_selected_concat(a: Seq<Seq<char>>, b: Seq<Seq<char>>, p: Probe, keep: bool, upto: int)
    requires
        0 <= upto <= b.len(),
    ensures
        selected_upto(a + b, p, keep, a.len() + upto) == selected(a, p, keep) + selected_upto(
            b,
            p,
            keep,
            upto,
        ),
    decreases upto,
{
    if upto > 0 {
        lemma_selected_concat(a, b, p, keep, upto - 1);
        assert((a + b)[a.len() + upto - 1] == b[upto - 1]);
        assert(selected_upto(a + b, p, keep, a.len() + upto) =~= selected(a, p, keep)
            + selected_upto(b, p, keep, upto));
    } else {
        lemma_selected_prefix(a, b, p, keep, a.len() as int);
        assert(selected(a, p, keep) + Seq::<Seq<char>>::empty() =~= selected(a, p, keep));
    }
}

/// Selecting among the first arguments does not look at what follows them.
proof fn lemma_selected_prefix(a: Seq<Seq<char>>, b: Seq<Seq<char>>, p: Probe, keep: bool, upto: int)
    requires
        0 <= upto <= a.len(),
    ensures
        selected_upto(a + b, p, keep, upto) == selected_upto(a, p, keep, upto),
    decreases upto,
{
    if upto > 0 {
        lemma_selected_prefix(a, b, p, keep, upto - 1);
        assert((a + b)[upto - 1] == a[upto - 1]);
    }
}

/// A selection keeps all of a list whose arguments all pass, and nothing of
/// one whose arguments all fail.
proof fn lemma_selected_uniform(a: Seq<Seq<char>>, p: Probe, keep: bool, upto: int)
    requires
        0 <= upto <= a.len(),
    ensures
        (forall|j: int| 0 <= j < a.len() ==> p.admits(a[j]) == keep) ==> selected_upto(
            a,
            p,
            keep,
            upto,
        ) == a.take(upto),
        (forall|j: int| 0 <= j < a.len() ==> p.admits(a[j]) != keep) ==> selected_upto(
            a,
            p,
            keep,
            upto,
        ) == Seq::<Seq<char>>::empty(),
    decreases upto,
{
    if upto > 0 {
        lemma_selected_uniform(a, p, keep, upto - 1);
        if forall|j: int| 0 <= j < a.len() ==> p.admits(a[j]) == keep {
            assert(p.admits(a[upto - 1]) == keep);
            assert(selected_upto(a, p, keep, upto) =~= a.take(upto));
        }
        if forall|j: int| 0 <= j < a.len() ==> p.admits(a[j]) != keep {
            assert(p.admits(a[upto - 1]) != keep);
        }
    } else {
        assert(a.take(0) =~= Seq::<Seq<char>>::empty());
    }
}

/// The span stands once in a spliced list. Where the archive's path ends in
/// `.a`, the rlibs kept for the linker end in `.rlib` and an argument ends
/// in `.o`, the spliced list holds the span at the splice point, and no
/// other argument of it names the archive, whatever spans the captured
/// arguments held before.
pub proof fn lemma_splice_single_span(
    flavor: LinkerFlavor,
    archive: Seq<char>,
    kept: Seq<Seq<char>>,
    base: Seq<Seq<char>>,
)
    requires
        flavor != LinkerFlavor::Unsupported,
        ".a"@.is_suffix_of(archive),
        forall|j: int| 0 <= j < kept.len() ==> ".rlib"@.is_suffix_of(#[trigger] kept[j]),
        splice_point(flavor, archive, base) >= 0,
    ensures
        ({
            let out = spliced(flavor, archive, true, kept, base);
            let k = splice_point(flavor, archive, base);
            let span = whole_archive_span(flavor, archive);
            &&& k + span.len() <= out.len()
            &&& out.subrange(k, k + span.len()) == span
            &&& forall|i: int|
                0 <= i < out.len() ==> (out[i] == span_carrier(flavor, archive) <==> i == k
                    + carrier_offset(flavor))
        }),
{
    let clean = selected(without_span(flavor, archive, base), Probe::Suffix(".rlib"@), false);
    let k = splice_point(flavor, archive, base);
    let span = whole_archive_span(flavor, archive);
    let out = spliced(flavor, archive, true, kept, base);
    lemma_last_admitted_upto(clean, Probe::Suffix(".o"@), clean.len() as int);
    lemma_clean(flavor, archive, base);
    let head = clean.take(k);
    let tail = clean.skip(k);
    assert forall|j: int| 0 <= j < kept.len() implies kept[j] != span_carrier(flavor, archive) by {
        lemma_rlib_is_no_carrier(flavor, archive, kept[j]);
    }
    assert forall|j: int| 0 <= j < head.len() implies head[j] != span_carrier(flavor, archive) by {
        assert(head[j] == clean[j]);
    }
    assert forall|j: int| 0 <= j < tail.len() implies tail[j] != span_carrier(flavor, archive) by {
        assert(tail[j] == clean[k + j]);
    }
    lemma_span_positions(flavor, archive, head, kept, tail);
    assert(out.subrange(k, k + span.len()) =~= span);
}

/// Splicing twice is splicing once. Where the archive's path ends in `.a`
/// and the rlibs kept for the linker end in `.rlib`, the splice finds its
/// own span in a list that it has made, takes it out together with the
/// kept rlibs, and puts both back where they stood.
pub proof fn lemma_splice_idempotent(
    flavor: LinkerFlavor,
    archive: Seq<char>,
    has_contents: bool,
    kept: Seq<Seq<char>>,
    base: Seq<Seq<char>>,
)
    requires
        ".a"@.is_suffix_of(archive),
        forall|j: int| 0 <= j < kept.len() ==> ".rlib"@.is_suffix_of(#[trigger] kept[j]),
    ensures
        spliced(flavor, archive, has_contents, kept, spliced(flavor, archive, has_contents, kept, base))
            == spliced(flavor, archive, has_contents, kept, base),
{
    let once = spliced(flavor, archive, has_contents, kept, base);
    if has_contents && flavor != LinkerFlavor::Unsupported && splice_point(flavor, archive, base)
        >= 0 {
        let rlib = Probe::Suffix(".rlib"@);
        let object = Probe::Suffix(".o"@);
        let clean = selected(without_span(flavor, archive, base), rlib, false);
        let k = splice_point(flavor, archive, base);
        let span = whole_archive_span(flavor, archive);
        lemma_last_admitted_upto(clean, object, clean.len() as int);
        lemma_clean(flavor, archive, base);
        lemma_carrier_stands_apart(flavor, archive);
        let head = clean.take(k);
        let tail = clean.skip(k);
        assert forall|j: int| 0 <= j < kept.len() implies kept[j] != span_carrier(
            flavor,
            archive,
        ) by {
            lemma_rlib_is_no_carrier(flavor, archive, kept[j]);
        }
        assert forall|j: int| 0 <= j < head.len() implies head[j] != span_carrier(
            flavor,
            archive,
        ) && !rlib.admits(head[j]) by {
            assert(head[j] == clean[j]);
        }
        assert forall|j: int| 0 <= j < tail.len() implies tail[j] != span_carrier(
            flavor,
            archive,
        ) && !rlib.admits(tail[j]) by {
            assert(tail[j] == clean[k + j]);
        }
        // Taking the span out of the spliced list leaves head, kept and tail.
        lemma_without_span_of_spliced(flavor, archive, head, kept, tail, once.len() as int);
        let bare = without_span(flavor, archive, once);
        assert(once.subrange((head.len() + span.len()) as int, once.len() as int) =~= kept + tail);
        assert(bare =~= head + (kept + tail));
        // Dropping the rlibs leaves head and tail: the arguments that stayed before.
        lemma_selected_concat(head, kept + tail, rlib, false, (kept + tail).len() as int);
        lemma_selected_concat(kept, tail, rlib, false, tail.len() as int);
        lemma_selected_uniform(head, rlib, false, head.len() as int);
        lemma_selected_uniform(kept, rlib, false, kept.len() as int);
        lemma_selected_uniform(tail, rlib, false, tail.len() as int);
        assert(head.take(head.len() as int) =~= head);
        assert(tail.take(tail.len() as int) =~= tail);
        assert(selected(kept + tail, rlib, false) =~= tail);
        assert(selected(bare, rlib, false) =~= head + tail);
        assert(head + tail =~= clean);
    }
}

/// A list that holds no carrier holds no span: nothing is taken out of it.
proof fn lemma_without_span_fixed(
    flavor: LinkerFlavor,
    archive: Seq<char>,
    args: Seq<Seq<char>>,
    upto: int,
)
    requires
        0 <= upto <= args.len(),
        forall|j: int| 0 <= j < args.len() ==> args[j] != span_carrier(flavor, archive),
    ensures
        without_span_upto(flavor, archive, args, upto) == args.take(upto),
    decreases upto,
{
    if upto > 0 {
        lemma_without_span_fixed(flavor, archive, args, upto - 1);
        assert(!in_span(flavor, archive, args, upto - 1));
        assert(args.take(upto - 1).push(args[upto - 1]) =~= args.take(upto));
    } else {
        assert(args.take(0) =~= Seq::<Seq<char>>::empty());
    }
}

/// A span that is already there is replaced, not repeated: where the
/// archive is spliced in, the result is the one for the same arguments
/// without that span.
pub proof fn lemma_splice_replaces_span(
    flavor: LinkerFlavor,
    archive: Seq<char>,
    kept: Seq<Seq<char>>,
    base: Seq<Seq<char>>,
)
    requires
        flavor != LinkerFlavor::Unsupported,
        splice_point(flavor, archive, base) >= 0,
    ensures
        spliced(flavor, archive, true, kept, base) == spliced(
            flavor,
            archive,
            true,
            kept,
            without_span(flavor, archive, base),
        ),
{
    let bare = without_span(flavor, archive, base);
    lemma_without_span_upto(flavor, archive, base, base.len() as int);
    lemma_without_span_fixed(flavor, archive, bare, bare.len() as int);
    assert(bare.take(bare.len() as int) =~= bare);
}

/// The fat link of a line that holds the span already is the fat link of
/// the line without it: where the archive has contents and is spliced in,
/// two captured lines of which the second is the first without that span
/// give the same arguments or the same error.
pub proof fn lemma_fat_link_replaces_span(
    flavor: LinkerFlavor,
    wasm: bool,
    windows: bool,
    with_span: Seq<Seq<char>>,
    without: Seq<Seq<char>>,
    archive: Seq<char>,
    kept: Seq<Seq<char>>,
    exe: Seq<char>,
)
    requires
        flavor != LinkerFlavor::Unsupported,
        splice_point(flavor, archive, after_driver(with_span)) >= 0,
        after_driver(without) == without_span(flavor, archive, after_driver(with_span)),
    ensures
        fat_link_line(flavor, wasm, windows, with_span, archive, true, kept, exe) == fat_link_line(
            flavor,
            wasm,
            windows,
            without,
            archive,
            true,
            kept,
            exe,
        ),
{
    lemma_splice_replaces_span(flavor, archive, kept, after_driver(with_span));
}

} // verus!
