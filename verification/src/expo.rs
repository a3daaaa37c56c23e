//! The exposition serializer: metric families rendered as
//! line-oriented text, one `HELP` line and one `TYPE` line per family
//! followed by one labeled sample line per sample.

use vstd::prelude::*;
use vstd::string::*;
use crate::text::{dec_digits, push_bytes, push_decimal};

verus! {

/// The two metric kinds of the exposition format.
#[derive(Debug, Clone, Copy, PartialEq, Eq, Structural)]
pub enum MetricKind {
    Counter,
    Gauge,
}

/// The kind's name in a `TYPE` line.
pub open spec fn kind_text(k: MetricKind) -> Seq<u8> {
    match k {
        MetricKind::Counter => ("counter").spec_bytes(),
        MetricKind::Gauge => ("gauge").spec_bytes(),
    }
}

fn kind_vec(k: MetricKind) -> (v: Vec<u8>)
    ensures
        v@ == kind_text(k),
{
    match k {
        MetricKind::Counter => ("counter").as_bytes_vec(),
        MetricKind::Gauge => ("gauge").as_bytes_vec(),
    }
}

/// One sample: ordered label pairs and a value.
#[derive(Debug)]
pub struct MetricSample {
    pub labels: Vec<(Vec<u8>, Vec<u8>)>,
    pub value: u64,
}

/// What one sample states.
pub ghost struct SampleView {
    pub labels: Seq<(Seq<u8>, Seq<u8>)>,
    pub value: u64,
}

/// The view of a label list.
pub open spec fn labels_view(s: Seq<(Vec<u8>, Vec<u8>)>) -> Seq<(Seq<u8>, Seq<u8>)> {
    s.map_values(|p: (Vec<u8>, Vec<u8>)| (p.0@, p.1@))
}

/// The view of one sample.
pub open spec fn sample_view(s: MetricSample) -> SampleView {
    SampleView { labels: labels_view(s.labels@), value: s.value }
}

/// The view of a sample list.
pub open spec fn samples_view(s: Seq<MetricSample>) -> Seq<SampleView> {
    s.map_values(|m: MetricSample| sample_view(m))
}

/// One metric family: its name, its static help text, its kind, and
/// its samples.
#[derive(Debug)]
pub struct MetricFamily {
    pub name: Vec<u8>,
    pub help: Vec<u8>,
    pub kind: MetricKind,
    pub samples: Vec<MetricSample>,
}

/// What one family states.
pub ghost struct FamilyView {
    pub name: Seq<u8>,
    pub help: Seq<u8>,
    pub kind: MetricKind,
    pub samples: Seq<SampleView>,
}

/// The view of one family.
pub open spec fn family_view(f: MetricFamily) -> FamilyView {
    FamilyView { name: f.name@, help: f.help@, kind: f.kind, samples: samples_view(f.samples@) }
}

/// The view of a family list.
pub open spec fn families_view(s: Seq<MetricFamily>) -> Seq<FamilyView> {
    s.map_values(|f: MetricFamily| family_view(f))
}

/// The text of a label list: `key="value"` pairs joined by commas.
pub open spec fn labels_text(ls: Seq<(Seq<u8>, Seq<u8>)>) -> Seq<u8>
    decreases ls.len(),
{
    if ls.len() == 0 {
        Seq::empty()
    } else {
        let one = ls[0].0 + seq![61u8, 34u8] + ls[0].1 + seq![34u8];
        if ls.len() == 1 {
            one
        } else {
            one + seq![44u8] + labels_text(ls.skip(1))
        }
    }
}

/// The text of one sample line.
pub open spec fn sample_text(family: Seq<u8>, s: SampleView) -> Seq<u8> {
    family + seq![123u8] + labels_text(s.labels) + seq![125u8, 32u8] + dec_digits(s.value as nat)
        + seq![10u8]
}

/// The text of a list of sample lines.
pub open spec fn samples_text(family: Seq<u8>, ss: Seq<SampleView>) -> Seq<u8>
    decreases ss.len(),
{
    if ss.len() == 0 {
        Seq::empty()
    } else {
        sample_text(family, ss[0]) + samples_text(family, ss.skip(1))
    }
}

/// The two header lines of a family.
pub open spec fn header_text(f: FamilyView) -> Seq<u8> {
    ("#HELP ").spec_bytes() + f.name + seq![32u8] + f.help + seq![10u8] + ("#TYPE ").spec_bytes()
        + f.name + seq![32u8] + kind_text(f.kind) + seq![10u8]
}

/// The whole text of one family: headers, then samples.
pub open spec fn family_text(f: FamilyView) -> Seq<u8> {
    header_text(f) + samples_text(f.name, f.samples)
}

/// The concatenated text of a list of families.
pub open spec fn families_text(fs: Seq<FamilyView>) -> Seq<u8>
    decreases fs.len(),
{
    if fs.len() == 0 {
        Seq::empty()
    } else {
        family_text(fs[0]) + families_text(fs.skip(1))
    }
}

fn emit_labels(out: &mut Vec<u8>, ls: &Vec<(Vec<u8>, Vec<u8>)>, i: usize)
    requires
        i <= ls@.len(),
    ensures
        final(out)@ == old(out)@ + labels_text(labels_view(ls@).skip(i as int)),
    decreases ls@.len() - i,
{
    let ghost tail = labels_view(ls@).skip(i as int);
    if i < ls.len() {
        push_bytes(out, &ls[i].0);
        out.push(61u8);
        out.push(34u8);
        push_bytes(out, &ls[i].1);
        out.push(34u8);
        let ghost one = tail[0].0 + seq![61u8, 34u8] + tail[0].1 + seq![34u8];
        assert(out@ =~= old(out)@ + one);
        if i + 1 < ls.len() {
            out.push(44u8);
            emit_labels(out, ls, i + 1);
            proof {
                assert(tail.skip(1) =~= labels_view(ls@).skip(i + 1));
            }
            assert(final(out)@ =~= old(out)@ + labels_text(tail));
        } else {
            assert(tail.len() == 1);
            assert(final(out)@ =~= old(out)@ + labels_text(tail));
        }
    } else {
        assert(tail.len() == 0);
        assert(final(out)@ =~= old(out)@ + labels_text(tail));
    }
}

fn emit_sample(out: &mut Vec<u8>, family: &Vec<u8>, s: &MetricSample)
    ensures
        final(out)@ == old(out)@ + sample_text(family@, sample_view(*s)),
{
    push_bytes(out, family);
    out.push(123u8);
    emit_labels(out, &s.labels, 0);
    proof {
        assert(labels_view(s.labels@).skip(0) =~= labels_view(s.labels@));
    }
    out.push(125u8);
    out.push(32u8);
    push_decimal(out, s.value);
    out.push(10u8);
    assert(final(out)@ =~= old(out)@ + sample_text(family@, sample_view(*s)));
}

fn emit_samples(out: &mut Vec<u8>, family: &Vec<u8>, ss: &Vec<MetricSample>, i: usize)
    requires
        i <= ss@.len(),
    ensures
        final(out)@ == old(out)@ + samples_text(family@, samples_view(ss@).skip(i as int)),
    decreases ss@.len() - i,
{
    let ghost tail = samples_view(ss@).skip(i as int);
    if i < ss.len() {
        emit_sample(out, family, &ss[i]);
        emit_samples(out, family, ss, i + 1);
        proof {
            assert(tail[0] == sample_view(ss@[i as int]));
            assert(tail.skip(1) =~= samples_view(ss@).skip(i + 1));
            assert(final(out)@ =~= old(out)@ + samples_text(family@, tail));
        }
    } else {
        assert(tail.len() == 0);
        assert(final(out)@ =~= old(out)@ + samples_text(family@, tail));
    }
}

/// Appends the full text of one family.
fn emit_family(out: &mut Vec<u8>, f: &MetricFamily)
    ensures
        final(out)@ == old(out)@ + family_text(family_view(*f)),
{
    let help_lit = ("#HELP ").as_bytes_vec();
    push_bytes(out, &help_lit);
    push_bytes(out, &f.name);
    out.push(32u8);
    push_bytes(out, &f.help);
    out.push(10u8);
    let type_lit = ("#TYPE ").as_bytes_vec();
    push_bytes(out, &type_lit);
    push_bytes(out, &f.name);
    out.push(32u8);
    let kv = kind_vec(f.kind);
    push_bytes(out, &kv);
    out.push(10u8);
    assert(out@ =~= old(out)@ + header_text(family_view(*f)));
    emit_samples(out, &f.name, &f.samples, 0);
    proof {
        assert(samples_view(f.samples@).skip(0) =~= samples_view(f.samples@));
        assert(final(out)@ =~= old(out)@ + family_text(family_view(*f)));
    }
}

fn emit_families(out: &mut Vec<u8>, fs: &Vec<MetricFamily>, i: usize)
    requires
        i <= fs@.len(),
    ensures
        final(out)@ == old(out)@ + families_text(families_view(fs@).skip(i as int)),
    decreases fs@.len() - i,
{
    let ghost tail = families_view(fs@).skip(i as int);
    if i < fs.len() {
        emit_family(out, &fs[i]);
        emit_families(out, fs, i + 1);
        proof {
            assert(tail[0] == family_view(fs@[i as int]));
            assert(tail.skip(1) =~= families_view(fs@).skip(i + 1));
            assert(final(out)@ =~= old(out)@ + families_text(tail));
        }
    } else {
        assert(tail.len() == 0);
        assert(final(out)@ =~= old(out)@ + families_text(tail));
    }
}

/// Renders a list of families as one exposition-format text block.
pub fn render_families(fs: &Vec<MetricFamily>) -> (out: Vec<u8>)
    ensures
        out@ == families_text(families_view(fs@)),
{
    let mut out: Vec<u8> = Vec::new();
    emit_families(&mut out, fs, 0);
    proof {
        assert(families_view(fs@).skip(0) =~= families_view(fs@));
    }
    out
}

} // verus!
