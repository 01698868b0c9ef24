//! Extraction engine: collection flattening and the extraction dispatcher.
//!
//! Given free-form model output and a requested output format, the engine
//! scans for the format's item tag, honours `collection` grouping (items in
//! a collection inherit its mention unless they carry their own), and
//! assembles the typed annotation payload. Items whose bodies yield too few
//! coordinates for their kind are dropped silently; collection-derived
//! items always precede standalone items in the result.

use vstd::prelude::*;
use vstd::string::*;

use crate::coords::{coords_at, parse_coords};
use crate::mention::{mention_of, parse_mention};
use crate::scan::{
    attrs_of, body_of, close_pat, lemma_tag_matches_at, make_close_pat, make_open_pat,
    match_end, matches_bounded, open_pat, scan_tags, strip_tags, strip_tags_at, tag_matches_at,
    triples_correspond,
};
use crate::types::{
    BoundingBox, BoxV, OutputFormat, Point, PointV, Pointing, PointingV, Polygon, PolygonV,
};

verus! {

/// A raw scanned item: parsed coordinate pairs and resolved mention.
pub type RawItemV = (Seq<(u32, u32)>, Option<Seq<char>>);

/// The grouping tag whose mention is inherited by the items inside it.
pub open spec fn collection_tag() -> Seq<char> {
    "collection"@
}

/// The item tag scanned for a spatial output format.
pub open spec fn tag_for(format: OutputFormat) -> Seq<char> {
    match format {
        OutputFormat::Text => Seq::empty(),
        OutputFormat::Point => "point"@,
        OutputFormat::Box => "point_box"@,
        OutputFormat::Polygon => "polygon"@,
    }
}

/// The raw item a tag match yields: the coordinates parsed from its body,
/// and its own mention if present, else the inherited one.
pub open spec fn raw_of_match(
    text: Seq<char>,
    tag: Seq<char>,
    m: (int, int, int),
    parent: Option<Seq<char>>,
) -> RawItemV {
    let mention = match mention_of(attrs_of(text, tag, m.0, m.1)) {
        Some(x) => Some(x),
        None => parent,
    };
    (coords_at(body_of(text, m.1, m.2), 0), mention)
}

/// The raw items of the matches `ms` of `tag` in `text`, each resolving its
/// mention against the inherited `parent`.
pub open spec fn items_of_matches(
    text: Seq<char>,
    tag: Seq<char>,
    ms: Seq<(int, int, int)>,
    parent: Option<Seq<char>>,
) -> Seq<RawItemV> {
    Seq::new(ms.len(), |k: int| raw_of_match(text, tag, ms[k], parent))
}

/// Raw items contributed by the collection matches `cms[i..]`, in order:
/// each collection's body is scanned for `tag`, and each inner item takes
/// its own mention or inherits the collection's.
pub open spec fn collection_items_from(
    text: Seq<char>,
    tag: Seq<char>,
    cms: Seq<(int, int, int)>,
    i: int,
) -> Seq<RawItemV>
    decreases cms.len() - i when 0 <= i
{
    if i >= cms.len() {
        Seq::empty()
    } else {
        let cm = cms[i];
        let parent = mention_of(attrs_of(text, collection_tag(), cm.0, cm.1));
        let body = body_of(text, cm.1, cm.2);
        items_of_matches(body, tag, tag_matches_at(body, tag, 0), parent)
            + collection_items_from(text, tag, cms, i + 1)
    }
}

/// All raw items of `tag` in `text`: collection-derived items first, then
/// the standalone items of the text with every collection span removed.
pub open spec fn raw_items_of(text: Seq<char>, tag: Seq<char>) -> Seq<RawItemV> {
    let residual = strip_tags_at(text, collection_tag(), 0);
    collection_items_from(text, tag, tag_matches_at(text, collection_tag(), 0), 0)
        + items_of_matches(residual, tag, tag_matches_at(residual, tag, 0), None)
}

/// A point takes the first coordinate pair; an item without coordinates is
/// dropped.
pub open spec fn point_of_raw(r: RawItemV) -> Option<PointV> {
    if r.0.len() >= 1 {
        Some(PointV { x: r.0[0].0, y: r.0[0].1, mention: r.1 })
    } else {
        None
    }
}

/// A box takes the first two coordinate pairs in order, unnormalized; an
/// item with fewer than two is dropped.
pub open spec fn box_of_raw(r: RawItemV) -> Option<BoxV> {
    if r.0.len() >= 2 {
        Some(BoxV { x1: r.0[0].0, y1: r.0[0].1, x2: r.0[1].0, y2: r.0[1].1, mention: r.1 })
    } else {
        None
    }
}

/// A polygon takes every coordinate pair, in text order, as its hull; an
/// item with fewer than three is dropped.
pub open spec fn polygon_of_raw(r: RawItemV) -> Option<PolygonV> {
    if r.0.len() >= 3 {
        Some(PolygonV { hull: r.0, mention: r.1 })
    } else {
        None
    }
}

/// The points built from the raw items `s[i..]`, in order, dropping items
/// without coordinates.
pub open spec fn points_from(s: Seq<RawItemV>, i: int) -> Seq<PointV>
    decreases s.len() - i when 0 <= i
{
    if i >= s.len() {
        Seq::empty()
    } else {
        match point_of_raw(s[i]) {
            Some(b) => seq![b] + points_from(s, i + 1),
            None => points_from(s, i + 1),
        }
    }
}

/// The boxes built from the raw items `s[i..]`, in order, dropping items
/// with fewer than two coordinate pairs.
pub open spec fn boxes_from(s: Seq<RawItemV>, i: int) -> Seq<BoxV>
    decreases s.len() - i when 0 <= i
{
    if i >= s.len() {
        Seq::empty()
    } else {
        match box_of_raw(s[i]) {
            Some(b) => seq![b] + boxes_from(s, i + 1),
            None => boxes_from(s, i + 1),
        }
    }
}

/// The polygons built from the raw items `s[i..]`, in order, dropping items
/// with fewer than three coordinate pairs.
pub open spec fn polygons_from(s: Seq<RawItemV>, i: int) -> Seq<PolygonV>
    decreases s.len() - i when 0 <= i
{
    if i >= s.len() {
        Seq::empty()
    } else {
        match polygon_of_raw(s[i]) {
            Some(b) => seq![b] + polygons_from(s, i + 1),
            None => polygons_from(s, i + 1),
        }
    }
}

/// What extraction yields on `text` for `format`: nothing for `Text` and
/// when no item of the format's tag survives validation; otherwise the
/// format's variant holding the surviving items, collection-derived ones
/// first.
pub open spec fn spec_extract(text: Seq<char>, format: OutputFormat) -> Option<PointingV> {
    match format {
        OutputFormat::Text => None,
        OutputFormat::Point => {
            let ps = points_from(raw_items_of(text, "point"@), 0);
            if ps.len() == 0 {
                None
            } else {
                Some(PointingV::Points(ps))
            }
        },
        OutputFormat::Box => {
            let bs = boxes_from(raw_items_of(text, "point_box"@), 0);
            if bs.len() == 0 {
                None
            } else {
                Some(PointingV::Boxes(bs))
            }
        },
        OutputFormat::Polygon => {
            let gs = polygons_from(raw_items_of(text, "polygon"@), 0);
            if gs.len() == 0 {
                None
            } else {
                Some(PointingV::Polygons(gs))
            }
        },
    }
}

/// An exec raw item describes the same coordinates and mention as a spec one.
pub open spec fn raw_corresponds(e: (Vec<(u32, u32)>, Option<String>), r: RawItemV) -> bool {
    &&& e.0@ == r.0
    &&& e.1.deep_view() == r.1
}

/// Elementwise correspondence of exec raw items with spec raw items.
pub open spec fn raws_correspond(
    v: Seq<(Vec<(u32, u32)>, Option<String>)>,
    s: Seq<RawItemV>,
) -> bool {
    &&& v.len() == s.len()
    &&& forall|k: int| 0 <= k < v.len() ==> raw_corresponds(#[trigger] v[k], s[k])
}

fn clone_opt_string(o: &Option<String>) -> (r: Option<String>)
    ensures
        r == *o,
{
    match o {
        Some(s) => Some(s.clone()),
        None => None,
    }
}

/// A child's own mention wins; otherwise the parent's is inherited.
fn or_mention(child: Option<String>, parent: &Option<String>) -> (r: Option<String>)
    ensures
        r.deep_view() == (match child.deep_view() {
            Some(x) => Some(x),
            None => parent.deep_view(),
        }),
{
    match child {
        Some(c) => Some(c),
        None => clone_opt_string(parent),
    }
}

/// Scan `region` for the matches `ims` of `tag` and push each match's raw
/// item — parsed coordinates and resolved mention — onto `out`.
fn append_items(
    out: &mut Vec<(Vec<(u32, u32)>, Option<String>)>,
    region: &str,
    tag: &str,
    ims: &Vec<(usize, usize, usize)>,
    parent: &Option<String>,
)
    requires
        triples_correspond(ims@, tag_matches_at(region@, tag@, 0)),
    ensures
        final(out)@.len() == old(out)@.len() + tag_matches_at(region@, tag@, 0).len(),
        final(out)@.subrange(0, old(out)@.len() as int) == old(out)@,
        raws_correspond(
            final(out)@.skip(old(out)@.len() as int),
            items_of_matches(region@, tag@, tag_matches_at(region@, tag@, 0), parent.deep_view()),
        ),
{
    let ttl = tag.unicode_len();
    let rn = region.unicode_len();
    let ghost ims_s = tag_matches_at(region@, tag@, 0);
    let ghost parent_v = parent.deep_view();
    let ghost old_len = out@.len() as int;
    let ghost prefix0 = out@;
    proof {
        lemma_tag_matches_at(region@, tag@, 0);
    }
    let mut j: usize = 0;
    while j < ims.len()
        invariant
            triples_correspond(ims@, ims_s),
            ims_s == tag_matches_at(region@, tag@, 0),
            matches_bounded(region@, tag@, ims_s),
            rn == region@.len(),
            ttl == tag@.len(),
            parent_v == parent.deep_view(),
            j <= ims@.len(),
            old_len == prefix0.len(),
            out@.len() == old_len + j,
            out@.subrange(0, old_len) == prefix0,
            raws_correspond(
                out@.skip(old_len),
                items_of_matches(region@, tag@, ims_s, parent_v).subrange(0, j as int),
            ),
        decreases ims@.len() - j,
    {
        let im = ims[j];
        proof {
            assert(ims_s[j as int] == (im.0 as int, im.1 as int, im.2 as int));
        }
        let iattrs = region.substring_char(im.0 + 1 + ttl, im.1);
        let ibody = region.substring_char(im.1 + 1, im.2);
        let ment = or_mention(parse_mention(iattrs), parent);
        let cs = parse_coords(ibody);
        let ghost out_pre = out@;
        out.push((cs, ment));
        proof {
            let items = items_of_matches(region@, tag@, ims_s, parent_v);
            assert(iattrs@ == attrs_of(region@, tag@, im.0 as int, im.1 as int));
            assert(ibody@ == body_of(region@, im.1 as int, im.2 as int));
            assert(raw_corresponds(out@[old_len + j], items[j as int]));
            assert(out@.subrange(0, old_len) =~= prefix0);
            assert(raws_correspond(out@.skip(old_len), items.subrange(0, j + 1))) by {
                assert forall|k: int| 0 <= k < j + 1 implies raw_corresponds(
                    #[trigger] out@.skip(old_len)[k],
                    items.subrange(0, j + 1)[k],
                ) by {
                    assert(out@.skip(old_len)[k] == out@[old_len + k]);
                    if k < j {
                        assert(out@[old_len + k] == out_pre[old_len + k]);
                        assert(out_pre.skip(old_len)[k] == out_pre[old_len + k]);
                    }
                }
            }
        }
        j = j + 1;
    }
    proof {
        let items = items_of_matches(region@, tag@, ims_s, parent_v);
        assert(items.subrange(0, items.len() as int) =~= items);
    }
}

/// Scan `text` for items of `tag`: first the items inside `collection`
/// blocks, in order, each inheriting the collection's mention unless it
/// carries its own; then the standalone items of the text with every
/// collection span removed.
pub fn extract_items(text: &str, tag: &str) -> (r: Vec<(Vec<(u32, u32)>, Option<String>)>)
    ensures
        raws_correspond(r@, raw_items_of(text@, tag@)),
{
    let ctag = "collection";
    let copen = make_open_pat(ctag);
    let cclose = make_close_pat(ctag);
    let ctl = ctag.unicode_len();
    let topen = make_open_pat(tag);
    let tclose = make_close_pat(tag);
    let n = text.unicode_len();
    let cms = scan_tags(text, ctag, copen.as_str(), cclose.as_str());
    let ghost cms_s = tag_matches_at(text@, collection_tag(), 0);
    let mut out: Vec<(Vec<(u32, u32)>, Option<String>)> = Vec::new();
    let ghost mut done: Seq<RawItemV> = Seq::empty();
    proof {
        lemma_tag_matches_at(text@, collection_tag(), 0);
        assert(collection_items_from(text@, tag@, cms_s, 0) =~= done + collection_items_from(
            text@,
            tag@,
            cms_s,
            0,
        ));
    }
    let mut i: usize = 0;
    while i < cms.len()
        invariant
            n == text@.len(),
            ctl == collection_tag().len(),
            topen@ == open_pat(tag@),
            tclose@ == close_pat(tag@),
            triples_correspond(cms@, cms_s),
            cms_s == tag_matches_at(text@, collection_tag(), 0),
            matches_bounded(text@, collection_tag(), cms_s),
            i <= cms@.len(),
            raws_correspond(out@, done),
            collection_items_from(text@, tag@, cms_s, 0) == done + collection_items_from(
                text@,
                tag@,
                cms_s,
                i as int,
            ),
        decreases cms@.len() - i,
    {
        let cm = cms[i];
        proof {
            assert(cms_s[i as int] == (cm.0 as int, cm.1 as int, cm.2 as int));
        }
        let attrs = text.substring_char(cm.0 + 1 + ctl, cm.1);
        let body = text.substring_char(cm.1 + 1, cm.2);
        let parent = parse_mention(attrs);
        let ims = scan_tags(body, tag, topen.as_str(), tclose.as_str());
        let ghost out_before = out@;
        append_items(&mut out, body, tag, &ims, &parent);
        proof {
            let parent_v = mention_of(
                attrs_of(text@, collection_tag(), cm.0 as int, cm.1 as int),
            );
            assert(attrs@ == attrs_of(text@, collection_tag(), cm.0 as int, cm.1 as int));
            assert(parent.deep_view() == parent_v);
            assert(body@ == body_of(text@, cm.1 as int, cm.2 as int));
            let items_i = items_of_matches(body@, tag@, tag_matches_at(body@, tag@, 0), parent_v);
            assert(raws_correspond(out@, done + items_i)) by {
                assert forall|k: int| 0 <= k < out@.len() implies raw_corresponds(
                    #[trigger] out@[k],
                    (done + items_i)[k],
                ) by {
                    if k < out_before.len() {
                        assert(out@.subrange(0, out_before.len() as int)[k] == out@[k]);
                    } else {
                        assert(out@.skip(out_before.len() as int)[k - out_before.len()]
                            == out@[k]);
                    }
                }
            }
            done = done + items_i;
            assert(collection_items_from(text@, tag@, cms_s, i as int) == items_i
                + collection_items_from(text@, tag@, cms_s, i + 1));
            assert(collection_items_from(text@, tag@, cms_s, 0) =~= done
                + collection_items_from(text@, tag@, cms_s, (i + 1) as int));
        }
        i = i + 1;
    }
    let residual = strip_tags(text, ctag, copen.as_str(), cclose.as_str());
    let sms = scan_tags(residual.as_str(), tag, topen.as_str(), tclose.as_str());
    let none_parent: Option<String> = None;
    let ghost out_before = out@;
    append_items(&mut out, residual.as_str(), tag, &sms, &none_parent);
    proof {
        assert(collection_items_from(text@, tag@, cms_s, cms_s.len() as int) =~= Seq::<
            RawItemV,
        >::empty());
        assert(done + collection_items_from(text@, tag@, cms_s, cms_s.len() as int) =~= done);
        assert(done == collection_items_from(text@, tag@, cms_s, 0));
        assert(residual@ == strip_tags_at(text@, collection_tag(), 0));
        let items_s = items_of_matches(
            residual@,
            tag@,
            tag_matches_at(residual@, tag@, 0),
            None,
        );
        assert(none_parent.deep_view() == Option::<Seq<char>>::None);
        assert(raws_correspond(out@, done + items_s)) by {
            assert forall|k: int| 0 <= k < out@.len() implies raw_corresponds(
                #[trigger] out@[k],
                (done + items_s)[k],
            ) by {
                if k < out_before.len() {
                    assert(out@.subrange(0, out_before.len() as int)[k] == out@[k]);
                } else {
                    assert(out@.skip(out_before.len() as int)[k - out_before.len()] == out@[k]);
                }
            }
        }
        assert(raw_items_of(text@, tag@) == done + items_s);
    }
    out
}

/// Extract spatial annotations from model output text for the requested
/// output format. Returns nothing for `Text` and when no valid item of the
/// format's tag is found; otherwise the format's payload variant, with
/// collection-derived items before standalone items.
pub fn extract(text: &str, format: &OutputFormat) -> (r: Option<Pointing>)
    ensures
        r.deep_view() == spec_extract(text@, *format),
{
    match format {
        OutputFormat::Text => None,
        OutputFormat::Point => {
            let raws = extract_items(text, "point");
            let ghost raws_s = raw_items_of(text@, "point"@);
            let mut items: Vec<Point> = Vec::new();
            proof {
                assert(points_from(raws_s, 0) =~= items.deep_view() + points_from(raws_s, 0));
            }
            let mut idx: usize = 0;
            while idx < raws.len()
                invariant
                    raws_correspond(raws@, raws_s),
                    idx <= raws@.len(),
                    points_from(raws_s, 0) == items.deep_view() + points_from(
                        raws_s,
                        idx as int,
                    ),
                decreases raws@.len() - idx,
            {
                let ghost items_before = items.deep_view();
                let m = clone_opt_string(&raws[idx].1);
                let p = parse_point(raws[idx].0.as_slice(), m);
                proof {
                    assert((raws@[idx as int].0@, raws@[idx as int].1.deep_view())
                        == raws_s[idx as int]);
                }
                match p {
                    Some(pt) => {
                        items.push(pt);
                        proof {
                            assert(items.deep_view() =~= items_before.push(pt.deep_view()));
                            assert(points_from(raws_s, 0) =~= items.deep_view() + points_from(
                                raws_s,
                                idx + 1,
                            ));
                        }
                    },
                    None => {},
                }
                idx = idx + 1;
            }
            proof {
                assert(points_from(raws_s, raws_s.len() as int) =~= Seq::<PointV>::empty());
                assert(items.deep_view() + points_from(raws_s, raws_s.len() as int)
                    =~= items.deep_view());
            }
            if items.len() == 0 {
                None
            } else {
                Some(Pointing::Points(items))
            }
        },
        OutputFormat::Box => {
            let raws = extract_items(text, "point_box");
            let ghost raws_s = raw_items_of(text@, "point_box"@);
            let mut items: Vec<BoundingBox> = Vec::new();
            proof {
                assert(boxes_from(raws_s, 0) =~= items.deep_view() + boxes_from(raws_s, 0));
            }
            let mut idx: usize = 0;
            while idx < raws.len()
                invariant
                    raws_correspond(raws@, raws_s),
                    idx <= raws@.len(),
                    boxes_from(raws_s, 0) == items.deep_view() + boxes_from(raws_s, idx as int),
                decreases raws@.len() - idx,
            {
                let ghost items_before = items.deep_view();
                let m = clone_opt_string(&raws[idx].1);
                let p = parse_box(raws[idx].0.as_slice(), m);
                proof {
                    assert((raws@[idx as int].0@, raws@[idx as int].1.deep_view())
                        == raws_s[idx as int]);
                }
                match p {
                    Some(bx) => {
                        items.push(bx);
                        proof {
                            assert(items.deep_view() =~= items_before.push(bx.deep_view()));
                            assert(boxes_from(raws_s, 0) =~= items.deep_view() + boxes_from(
                                raws_s,
                                idx + 1,
                            ));
                        }
                    },
                    None => {},
                }
                idx = idx + 1;
            }
            proof {
                assert(boxes_from(raws_s, raws_s.len() as int) =~= Seq::<BoxV>::empty());
                assert(items.deep_view() + boxes_from(raws_s, raws_s.len() as int)
                    =~= items.deep_view());
            }
            if items.len() == 0 {
                None
            } else {
                Some(Pointing::Boxes(items))
            }
        },
        OutputFormat::Polygon => {
            let raws = extract_items(text, "polygon");
            let ghost raws_s = raw_items_of(text@, "polygon"@);
            let mut items: Vec<Polygon> = Vec::new();
            proof {
                assert(polygons_from(raws_s, 0) =~= items.deep_view() + polygons_from(
                    raws_s,
                    0,
                ));
            }
            let mut idx: usize = 0;
            while idx < raws.len()
                invariant
                    raws_correspond(raws@, raws_s),
                    idx <= raws@.len(),
                    polygons_from(raws_s, 0) == items.deep_view() + polygons_from(
                        raws_s,
                        idx as int,
                    ),
                decreases raws@.len() - idx,
            {
                let ghost items_before = items.deep_view();
                let m = clone_opt_string(&raws[idx].1);
                let p = parse_polygon(raws[idx].0.as_slice(), m);
                proof {
                    assert((raws@[idx as int].0@, raws@[idx as int].1.deep_view())
                        == raws_s[idx as int]);
                }
                match p {
                    Some(pg) => {
                        items.push(pg);
                        proof {
                            assert(items.deep_view() =~= items_before.push(pg.deep_view()));
                            assert(polygons_from(raws_s, 0) =~= items.deep_view()
                                + polygons_from(raws_s, idx + 1));
                        }
                    },
                    None => {},
                }
                idx = idx + 1;
            }
            proof {
                assert(polygons_from(raws_s, raws_s.len() as int) =~= Seq::<PolygonV>::empty());
                assert(items.deep_view() + polygons_from(raws_s, raws_s.len() as int)
                    =~= items.deep_view());
            }
            if items.len() == 0 {
                None
            } else {
                Some(Pointing::Polygons(items))
            }
        },
    }
}

/// Build a point annotation from the first coordinate pair, if present.
pub fn parse_point(coords: &[(u32, u32)], mention: Option<String>) -> (r: Option<Point>)
    ensures
        r.deep_view() == point_of_raw((coords@, mention.deep_view())),
{
    if coords.len() >= 1 {
        let c = coords[0];
        Some(Point { x: c.0, y: c.1, mention })
    } else {
        None
    }
}

/// Build a box annotation from the first two coordinate pairs, if present.
pub fn parse_box(coords: &[(u32, u32)], mention: Option<String>) -> (r: Option<BoundingBox>)
    ensures
        r.deep_view() == box_of_raw((coords@, mention.deep_view())),
{
    if coords.len() >= 2 {
        let c0 = coords[0];
        let c1 = coords[1];
        Some(BoundingBox { x1: c0.0, y1: c0.1, x2: c1.0, y2: c1.1, mention })
    } else {
        None
    }
}

/// Build a polygon annotation from all coordinate pairs, if at least three.
pub fn parse_polygon(coords: &[(u32, u32)], mention: Option<String>) -> (r: Option<Polygon>)
    ensures
        r.deep_view() == polygon_of_raw((coords@, mention.deep_view())),
{
    if coords.len() >= 3 {
        let mut hull: Vec<(u32, u32)> = Vec::new();
        let mut k: usize = 0;
        while k < coords.len()
            invariant
                k <= coords@.len(),
                hull@ == coords@.subrange(0, k as int),
            decreases coords@.len() - k,
        {
            hull.push(coords[k]);
            proof {
                assert(hull@ =~= coords@.subrange(0, k + 1 as int));
            }
            k = k + 1;
        }
        proof {
            assert(hull@ =~= coords@);
        }
        Some(Polygon { hull, mention })
    } else {
        None
    }
}

/// A text without collection matches is left unchanged by stripping them.
pub proof fn lemma_no_collection_strip(text: Seq<char>)
    requires
        tag_matches_at(text, collection_tag(), 0).len() == 0,
    ensures
        strip_tags_at(text, collection_tag(), 0) == text,
{
    match crate::scan::first_tag_at(text, collection_tag(), 0) {
        Some((s, gt, close)) => {
            crate::scan::lemma_first_tag_at(text, collection_tag(), 0);
            let end = match_end(collection_tag(), close);
            assert(0 < end <= text.len());
            assert(tag_matches_at(text, collection_tag(), 0).len() > 0);
        },
        None => {
            assert(strip_tags_at(text, collection_tag(), 0) =~= text);
        },
    }
}

proof fn lemma_points_from_shift(a: Seq<RawItemV>, b: Seq<RawItemV>, j: int)
    requires
        0 <= j <= b.len(),
    ensures
        points_from(a + b, a.len() + j) == points_from(b, j),
    decreases b.len() - j,
{
    if j < b.len() {
        assert((a + b)[a.len() + j] == b[j]);
        lemma_points_from_shift(a, b, j + 1);
    }
}

proof fn lemma_points_from_concat(a: Seq<RawItemV>, b: Seq<RawItemV>, i: int)
    requires
        0 <= i <= a.len(),
    ensures
        points_from(a + b, i) == points_from(a, i) + points_from(b, 0),
    decreases a.len() - i,
{
    if i == a.len() {
        lemma_points_from_shift(a, b, 0);
        assert(points_from(a, i) + points_from(b, 0) =~= points_from(b, 0));
    } else {
        assert((a + b)[i] == a[i]);
        lemma_points_from_concat(a, b, i + 1);
        match point_of_raw(a[i]) {
            Some(p) => {
                assert(seq![p] + (points_from(a, i + 1) + points_from(b, 0)) =~= (seq![p]
                    + points_from(a, i + 1)) + points_from(b, 0));
            },
            None => {},
        }
    }
}

proof fn lemma_boxes_from_shift(a: Seq<RawItemV>, b: Seq<RawItemV>, j: int)
    requires
        0 <= j <= b.len(),
    ensures
        boxes_from(a + b, a.len() + j) == boxes_from(b, j),
    decreases b.len() - j,
{
    if j < b.len() {
        assert((a + b)[a.len() + j] == b[j]);
        lemma_boxes_from_shift(a, b, j + 1);
    }
}

proof fn lemma_boxes_from_concat(a: Seq<RawItemV>, b: Seq<RawItemV>, i: int)
    requires
        0 <= i <= a.len(),
    ensures
        boxes_from(a + b, i) == boxes_from(a, i) + boxes_from(b, 0),
    decreases a.len() - i,
{
    if i == a.len() {
        lemma_boxes_from_shift(a, b, 0);
        assert(boxes_from(a, i) + boxes_from(b, 0) =~= boxes_from(b, 0));
    } else {
        assert((a + b)[i] == a[i]);
        lemma_boxes_from_concat(a, b, i + 1);
        match box_of_raw(a[i]) {
            Some(p) => {
                assert(seq![p] + (boxes_from(a, i + 1) + boxes_from(b, 0)) =~= (seq![p]
                    + boxes_from(a, i + 1)) + boxes_from(b, 0));
            },
            None => {},
        }
    }
}

proof fn lemma_polygons_from_shift(a: Seq<RawItemV>, b: Seq<RawItemV>, j: int)
    requires
        0 <= j <= b.len(),
    ensures
        polygons_from(a + b, a.len() + j) == polygons_from(b, j),
    decreases b.len() - j,
{
    if j < b.len() {
        assert((a + b)[a.len() + j] == b[j]);
        lemma_polygons_from_shift(a, b, j + 1);
    }
}

proof fn lemma_polygons_from_concat(a: Seq<RawItemV>, b: Seq<RawItemV>, i: int)
    requires
        0 <= i <= a.len(),
    ensures
        polygons_from(a + b, i) == polygons_from(a, i) + polygons_from(b, 0),
    decreases a.len() - i,
{
    if i == a.len() {
        lemma_polygons_from_shift(a, b, 0);
        assert(polygons_from(a, i) + polygons_from(b, 0) =~= polygons_from(b, 0));
    } else {
        assert((a + b)[i] == a[i]);
        lemma_polygons_from_concat(a, b, i + 1);
        match polygon_of_raw(a[i]) {
            Some(p) => {
                assert(seq![p] + (polygons_from(a, i + 1) + polygons_from(b, 0)) =~= (seq![p]
                    + polygons_from(a, i + 1)) + polygons_from(b, 0));
            },
            None => {},
        }
    }
}

/// A text with no collection block and exactly one `point` tag match whose
/// body yields at least one coordinate pair extracts to exactly that one
/// point, with the pair's values and the tag's own mention.
pub proof fn lemma_extract_single_point(text: Seq<char>, m: (int, int, int))
    requires
        tag_matches_at(text, collection_tag(), 0).len() == 0,
        tag_matches_at(text, "point"@, 0) =~= seq![m],
        coords_at(body_of(text, m.1, m.2), 0).len() >= 1,
    ensures
        spec_extract(text, OutputFormat::Point) == Some(
            PointingV::Points(
                seq![
                    PointV {
                        x: coords_at(body_of(text, m.1, m.2), 0)[0].0,
                        y: coords_at(body_of(text, m.1, m.2), 0)[0].1,
                        mention: mention_of(attrs_of(text, "point"@, m.0, m.1)),
                    },
                ],
            ),
        ),
{
    lemma_no_collection_strip(text);
    let tag = "point"@;
    let raw = raw_of_match(text, tag, m, None);
    assert(raw.1 == mention_of(attrs_of(text, tag, m.0, m.1)));
    assert(raw_items_of(text, tag) =~= seq![raw]);
    assert(points_from(seq![raw], 1) =~= Seq::<PointV>::empty());
    assert(points_from(raw_items_of(text, tag), 0) =~= seq![point_of_raw(raw)->Some_0]);
}

/// A text with no collection block and exactly one `point_box` tag match
/// whose body yields at least two coordinate pairs extracts to exactly that
/// one box, built from the first two pairs in order.
pub proof fn lemma_extract_single_box(text: Seq<char>, m: (int, int, int))
    requires
        tag_matches_at(text, collection_tag(), 0).len() == 0,
        tag_matches_at(text, "point_box"@, 0) =~= seq![m],
        coords_at(body_of(text, m.1, m.2), 0).len() >= 2,
    ensures
        spec_extract(text, OutputFormat::Box) == Some(
            PointingV::Boxes(
                seq![
                    BoxV {
                        x1: coords_at(body_of(text, m.1, m.2), 0)[0].0,
                        y1: coords_at(body_of(text, m.1, m.2), 0)[0].1,
                        x2: coords_at(body_of(text, m.1, m.2), 0)[1].0,
                        y2: coords_at(body_of(text, m.1, m.2), 0)[1].1,
                        mention: mention_of(attrs_of(text, "point_box"@, m.0, m.1)),
                    },
                ],
            ),
        ),
{
    lemma_no_collection_strip(text);
    let tag = "point_box"@;
    let raw = raw_of_match(text, tag, m, None);
    assert(raw.1 == mention_of(attrs_of(text, tag, m.0, m.1)));
    assert(raw_items_of(text, tag) =~= seq![raw]);
    assert(boxes_from(seq![raw], 1) =~= Seq::<BoxV>::empty());
    assert(boxes_from(raw_items_of(text, tag), 0) =~= seq![box_of_raw(raw)->Some_0]);
}

/// A text with no collection block and exactly one `polygon` tag match
/// whose body yields at least three coordinate pairs extracts to exactly
/// that one polygon, whose hull is all the pairs in text order.
pub proof fn lemma_extract_single_polygon(text: Seq<char>, m: (int, int, int))
    requires
        tag_matches_at(text, collection_tag(), 0).len() == 0,
        tag_matches_at(text, "polygon"@, 0) =~= seq![m],
        coords_at(body_of(text, m.1, m.2), 0).len() >= 3,
    ensures
        spec_extract(text, OutputFormat::Polygon) == Some(
            PointingV::Polygons(
                seq![
                    PolygonV {
                        hull: coords_at(body_of(text, m.1, m.2), 0),
                        mention: mention_of(attrs_of(text, "polygon"@, m.0, m.1)),
                    },
                ],
            ),
        ),
{
    lemma_no_collection_strip(text);
    let tag = "polygon"@;
    let raw = raw_of_match(text, tag, m, None);
    assert(raw.1 == mention_of(attrs_of(text, tag, m.0, m.1)));
    assert(raw_items_of(text, tag) =~= seq![raw]);
    assert(polygons_from(seq![raw], 1) =~= Seq::<PolygonV>::empty());
    assert(polygons_from(raw_items_of(text, tag), 0) =~= seq![polygon_of_raw(raw)->Some_0]);
}

/// Requesting plain text never yields a pointing payload, whatever the text
/// holds.
pub proof fn lemma_text_extracts_nothing(text: Seq<char>)
    ensures
        spec_extract(text, OutputFormat::Text) is None,
{
}

/// An item without coordinate pairs never builds a point.
pub proof fn lemma_point_needs_coords(r: RawItemV)
    requires
        r.0.len() == 0,
    ensures
        point_of_raw(r) is None,
{
}

/// An item with fewer than two coordinate pairs never builds a box.
pub proof fn lemma_box_needs_two_coords(r: RawItemV)
    requires
        r.0.len() < 2,
    ensures
        box_of_raw(r) is None,
{
}

/// An item with fewer than three coordinate pairs never builds a polygon.
pub proof fn lemma_polygon_needs_three_coords(r: RawItemV)
    requires
        r.0.len() < 3,
    ensures
        polygon_of_raw(r) is None,
{
}

/// Mention inheritance: an item inside a collection keeps its own mention
/// when it has one, and inherits the collection's otherwise.
pub proof fn lemma_mention_inheritance(
    text: Seq<char>,
    tag: Seq<char>,
    m: (int, int, int),
    parent: Option<Seq<char>>,
)
    ensures
        mention_of(attrs_of(text, tag, m.0, m.1)) is Some ==> raw_of_match(text, tag, m, parent).1
            == mention_of(attrs_of(text, tag, m.0, m.1)),
        mention_of(attrs_of(text, tag, m.0, m.1)) is None ==> raw_of_match(text, tag, m, parent).1
            == parent,
{
}

/// Ordering law for points: the result of extraction is the points built
/// from the collection-derived items followed by the points built from the
/// standalone items, each group in source order, whatever the physical
/// interleaving of collection blocks and standalone tags.
pub proof fn lemma_collection_points_first(text: Seq<char>)
    ensures
        ({
            let tag = "point"@;
            let residual = strip_tags_at(text, collection_tag(), 0);
            let cs = points_from(
                collection_items_from(text, tag, tag_matches_at(text, collection_tag(), 0), 0),
                0,
            );
            let ss = points_from(
                items_of_matches(residual, tag, tag_matches_at(residual, tag, 0), None),
                0,
            );
            spec_extract(text, OutputFormat::Point) == if cs.len() + ss.len() == 0 {
                None
            } else {
                Some(PointingV::Points(cs + ss))
            }
        }),
{
    let tag = "point"@;
    let residual = strip_tags_at(text, collection_tag(), 0);
    let a = collection_items_from(text, tag, tag_matches_at(text, collection_tag(), 0), 0);
    let b = items_of_matches(residual, tag, tag_matches_at(residual, tag, 0), None);
    lemma_points_from_concat(a, b, 0);
}

/// Ordering law for boxes: collection-derived boxes precede standalone
/// boxes in the result, each group in source order.
pub proof fn lemma_collection_boxes_first(text: Seq<char>)
    ensures
        ({
            let tag = "point_box"@;
            let residual = strip_tags_at(text, collection_tag(), 0);
            let cs = boxes_from(
                collection_items_from(text, tag, tag_matches_at(text, collection_tag(), 0), 0),
                0,
            );
            let ss = boxes_from(
                items_of_matches(residual, tag, tag_matches_at(residual, tag, 0), None),
                0,
            );
            spec_extract(text, OutputFormat::Box) == if cs.len() + ss.len() == 0 {
                None
            } else {
                Some(PointingV::Boxes(cs + ss))
            }
        }),
{
    let tag = "point_box"@;
    let residual = strip_tags_at(text, collection_tag(), 0);
    let a = collection_items_from(text, tag, tag_matches_at(text, collection_tag(), 0), 0);
    let b = items_of_matches(residual, tag, tag_matches_at(residual, tag, 0), None);
    lemma_boxes_from_concat(a, b, 0);
}

/// Ordering law for polygons: collection-derived polygons precede
/// standalone polygons in the result, each group in source order.
pub proof fn lemma_collection_polygons_first(text: Seq<char>)
    ensures
        ({
            let tag = "polygon"@;
            let residual = strip_tags_at(text, collection_tag(), 0);
            let cs = polygons_from(
                collection_items_from(text, tag, tag_matches_at(text, collection_tag(), 0), 0),
                0,
            );
            let ss = polygons_from(
                items_of_matches(residual, tag, tag_matches_at(residual, tag, 0), None),
                0,
            );
            spec_extract(text, OutputFormat::Polygon) == if cs.len() + ss.len() == 0 {
                None
            } else {
                Some(PointingV::Polygons(cs + ss))
            }
        }),
{
    let tag = "polygon"@;
    let residual = strip_tags_at(text, collection_tag(), 0);
    let a = collection_items_from(text, tag, tag_matches_at(text, collection_tag(), 0), 0);
    let b = items_of_matches(residual, tag, tag_matches_at(residual, tag, 0), None);
    lemma_polygons_from_concat(a, b, 0);
}

/// Extraction is deterministic: any two results that meet `extract`'s
/// contract on the same text and format are structurally equal.
pub proof fn lemma_extract_deterministic(
    text: Seq<char>,
    format: OutputFormat,
    r1: Option<Pointing>,
    r2: Option<Pointing>,
)
    requires
        r1.deep_view() == spec_extract(text, format),
        r2.deep_view() == spec_extract(text, format),
    ensures
        r1.deep_view() == r2.deep_view(),
{
}

} // verus!
