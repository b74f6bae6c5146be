//! The wizard's last page: an HTML summary of what is about to be written
//! and installed.
use crate::text::{decimal, from_chars, push_decimal, push_str_chars, strings_view};
use crate::wizard::{
    blender_view, houdini_view, redshift_view, BlenderVersion, DccView, HoudiniVersion, HoudiniView,
    RedshiftVersion,
};
use vstd::prelude::*;

verus! {

/// How `Debug` writes a path: quoted, with special characters escaped.
pub uninterp spec fn path_debug_text(p: Seq<char>) -> Seq<char>;

/// `Debug` of `std::path::Path` from std, through `format!("{:?}", ..)`.
/// The text is named, not described: the escaping rules are not stated.
#[verifier::external_body]
fn path_debug(p: &str) -> (r: String)
    ensures
        r@ == path_debug_text(p@),
{
    format!("{:?}", std::path::Path::new(p))
}

/// A GPU device as the summary shows it: its name, its memory in GB, the
/// OpenCL and CUDA versions as written, and its tags.
pub struct GpuDevice {
    pub name: String,
    pub mem_gb: u32,
    pub opencl: String,
    pub cuda: String,
    pub tags: Vec<(String, String)>,
}

/// The summary page's text.
pub struct SummaryActivity {
    text: String,
}

pub open spec fn version_text(v: (u32, u32, u32)) -> Seq<char> {
    decimal(v.0 as nat) + "."@ + decimal(v.1 as nat) + "."@ + decimal(v.2 as nat)
}

pub open spec fn blender_items(bs: Seq<DccView>) -> Seq<char>
    decreases bs.len(),
{
    if bs.len() == 0 {
        seq![]
    } else {
        blender_items(bs.drop_last()) + "<li>blender ["@ + version_text(bs.last().1) + "]: "@
            + path_debug_text(bs.last().0)
    }
}

pub open spec fn redshift_items(rs: Seq<DccView>) -> Seq<char>
    decreases rs.len(),
{
    if rs.len() == 0 {
        seq![]
    } else {
        redshift_items(rs.drop_last()) + "<li>redshift ["@ + version_text(rs.last().1) + "]: "@
            + path_debug_text(rs.last().0)
    }
}

pub open spec fn houdini_items(hs: Seq<HoudiniView>) -> Seq<char>
    decreases hs.len(),
{
    if hs.len() == 0 {
        seq![]
    } else {
        let h = hs.last();
        houdini_items(hs.drop_last()) + "<li>houdini.py"@ + decimal(h.1.0 as nat) + "_"@ + decimal(
            h.1.1 as nat,
        ) + " ["@ + version_text(h.2) + "]: "@ + path_debug_text(h.0)
    }
}

pub open spec fn tools_items(ps: Seq<Seq<char>>) -> Seq<char>
    decreases ps.len(),
{
    if ps.len() == 0 {
        seq![]
    } else {
        tools_items(ps.drop_last()) + "<li>"@ + ps.last()
    }
}

pub open spec fn tag_items(tags: Seq<(Seq<char>, Seq<char>)>) -> Seq<char>
    decreases tags.len(),
{
    if tags.len() == 0 {
        seq![]
    } else {
        tag_items(tags.drop_last()) + "<li>"@ + tags.last().0 + "="@ + tags.last().1
    }
}

pub open spec fn tags_view(t: Seq<(String, String)>) -> Seq<(Seq<char>, Seq<char>)> {
    t.map_values(|p: (String, String)| (p.0@, p.1@))
}

pub open spec fn gpu_item(d: GpuDevice) -> Seq<char> {
    "<li>"@ + d.name@ + " ("@ + decimal(d.mem_gb as nat) + "GB): ocl:"@ + d.opencl@ + ", cuda:"@
        + d.cuda@ + if d.tags@.len() > 0 {
        "<ul>"@ + tag_items(tags_view(d.tags@)) + "</ul>"@
    } else {
        seq![]
    }
}

pub open spec fn gpu_items(ds: Seq<GpuDevice>) -> Seq<char>
    decreases ds.len(),
{
    if ds.len() == 0 {
        seq![]
    } else {
        gpu_items(ds.drop_last()) + gpu_item(ds.last())
    }
}

/// A list under a heading, or the line for an empty list.
pub open spec fn section(nonempty: bool, head: Seq<char>, items: Seq<char>, none: Seq<char>) -> Seq<char> {
    if nonempty {
        head + items + "</ul>"@
    } else {
        none
    }
}

pub open spec fn path_or_default(p: Option<Seq<char>>) -> Seq<char> {
    match p {
        Some(t) => t,
        None => "default location"@,
    }
}

/// The configuration part of the summary: the database and scratch
/// locations, the Blender, Houdini and Redshift installations, the GPU devices.
pub open spec fn config_part(
    db_path: Option<Seq<char>>,
    scratch_path: Option<Seq<char>>,
    bs: Seq<DccView>,
    hs: Seq<HoudiniView>,
    rs: Seq<DccView>,
    gpus: Seq<GpuDevice>,
) -> Seq<char> {
    "<h5>Note: existing config files will be overwritten!</h5><h3>Database location:</h3>"@
        + path_or_default(db_path) + "\n<h3>Shared Scratch location:</h3>"@ + path_or_default(
        scratch_path,
    ) + "\n"@ + section(
        bs.len() > 0,
        "<h3>Blender Versions:</h3><ul>"@,
        blender_items(bs),
        "<h4>No blender versions</h4>"@,
    ) + "\n"@ + section(
        hs.len() > 0,
        "<h3>Houdini Versions:</h3><ul>"@,
        houdini_items(hs),
        "<h4>No Houdini versions</h4>"@,
    ) + "\n"@ + section(
        rs.len() > 0,
        "<h3>Redshift Versions:</h3><ul>"@,
        redshift_items(rs),
        "<h4>No Redshift versions</h4>"@,
    ) + "\n"@ + section(
        gpus.len() > 0,
        "<h3>GPU devices</h3><ul>\n                "@,
        gpu_items(gpus),
        "<h3>No GPU devices</h3>"@,
    ) + "\n"@
}

/// The tools part of the summary: where the Houdini tools go.
pub open spec fn tools_part(tools: Seq<Seq<char>>) -> Seq<char> {
    "<h3>Tools:</h3>"@ + section(
        tools.len() > 0,
        "<h4>Submitting tools for Houdini installed to:</h4><ul>"@,
        tools_items(tools),
        "<br>No Lifeblood submitting tools for Houdini will be installed"@,
    )
}

/// The summary text: the configuration part when `show_config_part`, then
/// the tools part when `show_tools_part`.
pub open spec fn summary_text(
    show_config_part: bool,
    show_tools_part: bool,
    db_path: Option<Seq<char>>,
    scratch_path: Option<Seq<char>>,
    bs: Seq<DccView>,
    hs: Seq<HoudiniView>,
    tools: Seq<Seq<char>>,
    rs: Seq<DccView>,
    gpus: Seq<GpuDevice>,
) -> Seq<char> {
    "<h1>Summary</h1>"@ + (if show_config_part {
        config_part(db_path, scratch_path, bs, hs, rs, gpus)
    } else {
        seq![]
    }) + (if show_tools_part {
        tools_part(tools)
    } else {
        seq![]
    })
}

pub open spec fn opt_str_view(p: Option<&str>) -> Option<Seq<char>> {
    match p {
        Some(t) => Some(t@),
        None => None,
    }
}

fn push_version(out: &mut Vec<char>, v: (u32, u32, u32))
    ensures
        final(out)@ == old(out)@ + version_text(v),
{
    let ghost start = out@;
    push_decimal(out, v.0 as u64);
    push_str_chars(out, ".");
    push_decimal(out, v.1 as u64);
    push_str_chars(out, ".");
    push_decimal(out, v.2 as u64);
    assert(out@ =~= start + version_text(v));
}

fn blender_text(bs: &[BlenderVersion], out: &mut Vec<char>)
    ensures
        final(out)@ == old(out)@ + blender_items(blender_view(bs@)),
{
    let ghost v = blender_view(bs@);
    let ghost start = out@;
    let mut i: usize = 0;
    while i < bs.len()
        invariant
            i <= bs@.len(),
            v == blender_view(bs@),
            out@ == start + blender_items(v.take(i as int)),
        decreases bs@.len() - i,
    {
        assert(v.take(i as int + 1).drop_last() =~= v.take(i as int));
        let ghost before = out@;
        push_str_chars(out, "<li>blender [");
        push_version(out, bs[i].version);
        push_str_chars(out, "]: ");
        let d = path_debug(bs[i].bin_path.as_str());
        push_str_chars(out, d.as_str());
        assert(out@ =~= start + blender_items(v.take(i as int + 1)));
        i = i + 1;
    }
    assert(v.take(bs@.len() as int) =~= v);
}

fn redshift_text(rs: &[RedshiftVersion], out: &mut Vec<char>)
    ensures
        final(out)@ == old(out)@ + redshift_items(redshift_view(rs@)),
{
    let ghost v = redshift_view(rs@);
    let ghost start = out@;
    let mut i: usize = 0;
    while i < rs.len()
        invariant
            i <= rs@.len(),
            v == redshift_view(rs@),
            out@ == start + redshift_items(v.take(i as int)),
        decreases rs@.len() - i,
    {
        assert(v.take(i as int + 1).drop_last() =~= v.take(i as int));
        push_str_chars(out, "<li>redshift [");
        push_version(out, rs[i].version);
        push_str_chars(out, "]: ");
        let d = path_debug(rs[i].bin_path.as_str());
        push_str_chars(out, d.as_str());
        assert(out@ =~= start + redshift_items(v.take(i as int + 1)));
        i = i + 1;
    }
    assert(v.take(rs@.len() as int) =~= v);
}

fn houdini_text(hs: &[HoudiniVersion], out: &mut Vec<char>)
    ensures
        final(out)@ == old(out)@ + houdini_items(houdini_view(hs@)),
{
    let ghost v = houdini_view(hs@);
    let ghost start = out@;
    let mut i: usize = 0;
    while i < hs.len()
        invariant
            i <= hs@.len(),
            v == houdini_view(hs@),
            out@ == start + houdini_items(v.take(i as int)),
        decreases hs@.len() - i,
    {
        assert(v.take(i as int + 1).drop_last() =~= v.take(i as int));
        push_str_chars(out, "<li>houdini.py");
        push_decimal(out, hs[i].python_version.0 as u64);
        push_str_chars(out, "_");
        push_decimal(out, hs[i].python_version.1 as u64);
        push_str_chars(out, " [");
        push_version(out, hs[i].version);
        push_str_chars(out, "]: ");
        let d = path_debug(hs[i].bin_path.as_str());
        push_str_chars(out, d.as_str());
        assert(out@ =~= start + houdini_items(v.take(i as int + 1)));
        i = i + 1;
    }
    assert(v.take(hs@.len() as int) =~= v);
}

fn tools_text(ps: &[String], out: &mut Vec<char>)
    ensures
        final(out)@ == old(out)@ + tools_items(strings_view(ps@)),
{
    let ghost v = strings_view(ps@);
    let ghost start = out@;
    let mut i: usize = 0;
    while i < ps.len()
        invariant
            i <= ps@.len(),
            v == strings_view(ps@),
            out@ == start + tools_items(v.take(i as int)),
        decreases ps@.len() - i,
    {
        assert(v.take(i as int + 1).drop_last() =~= v.take(i as int));
        push_str_chars(out, "<li>");
        push_str_chars(out, ps[i].as_str());
        assert(out@ =~= start + tools_items(v.take(i as int + 1)));
        i = i + 1;
    }
    assert(v.take(ps@.len() as int) =~= v);
}

fn tags_text(tags: &Vec<(String, String)>, out: &mut Vec<char>)
    ensures
        final(out)@ == old(out)@ + tag_items(tags_view(tags@)),
{
    let ghost v = tags_view(tags@);
    let ghost start = out@;
    let mut i: usize = 0;
    while i < tags.len()
        invariant
            i <= tags@.len(),
            v == tags_view(tags@),
            out@ == start + tag_items(v.take(i as int)),
        decreases tags@.len() - i,
    {
        assert(v.take(i as int + 1).drop_last() =~= v.take(i as int));
        push_str_chars(out, "<li>");
        push_str_chars(out, tags[i].0.as_str());
        push_str_chars(out, "=");
        push_str_chars(out, tags[i].1.as_str());
        assert(out@ =~= start + tag_items(v.take(i as int + 1)));
        i = i + 1;
    }
    assert(v.take(tags@.len() as int) =~= v);
}

fn gpu_text(ds: &[GpuDevice], out: &mut Vec<char>)
    ensures
        final(out)@ == old(out)@ + gpu_items(ds@),
{
    let ghost start = out@;
    let mut i: usize = 0;
    while i < ds.len()
        invariant
            i <= ds@.len(),
            out@ == start + gpu_items(ds@.take(i as int)),
        decreases ds@.len() - i,
    {
        assert(ds@.take(i as int + 1).drop_last() =~= ds@.take(i as int));
        let ghost before = out@;
        let d = &ds[i];
        push_str_chars(out, "<li>");
        push_str_chars(out, d.name.as_str());
        push_str_chars(out, " (");
        push_decimal(out, d.mem_gb as u64);
        push_str_chars(out, "GB): ocl:");
        push_str_chars(out, d.opencl.as_str());
        push_str_chars(out, ", cuda:");
        push_str_chars(out, d.cuda.as_str());
        if d.tags.len() > 0 {
            push_str_chars(out, "<ul>");
            tags_text(&d.tags, out);
            push_str_chars(out, "</ul>");
        }
        assert(out@ =~= before + gpu_item(ds@[i as int]));
        assert(out@ =~= start + gpu_items(ds@.take(i as int + 1)));
        i = i + 1;
    }
    assert(ds@.take(ds@.len() as int) =~= ds@);
}

fn push_path_or_default(out: &mut Vec<char>, p: Option<&str>)
    ensures
        final(out)@ == old(out)@ + path_or_default(opt_str_view(p)),
{
    match p {
        Some(t) => push_str_chars(out, t),
        None => push_str_chars(out, "default location"),
    }
}

fn push_blender_section(out: &mut Vec<char>, bs: &[BlenderVersion])
    ensures
        final(out)@ == old(out)@ + section(
            bs@.len() > 0,
            "<h3>Blender Versions:</h3><ul>"@,
            blender_items(blender_view(bs@)),
            "<h4>No blender versions</h4>"@,
        ),
{
    let ghost start = out@;
    if bs.len() > 0 {
        push_str_chars(out, "<h3>Blender Versions:</h3><ul>");
        blender_text(bs, out);
        push_str_chars(out, "</ul>");
        assert(out@ =~= start + ("<h3>Blender Versions:</h3><ul>"@ + blender_items(blender_view(bs@))
            + "</ul>"@));
    } else {
        push_str_chars(out, "<h4>No blender versions</h4>");
    }
}

fn push_houdini_section(out: &mut Vec<char>, hs: &[HoudiniVersion])
    ensures
        final(out)@ == old(out)@ + section(
            hs@.len() > 0,
            "<h3>Houdini Versions:</h3><ul>"@,
            houdini_items(houdini_view(hs@)),
            "<h4>No Houdini versions</h4>"@,
        ),
{
    let ghost start = out@;
    if hs.len() > 0 {
        push_str_chars(out, "<h3>Houdini Versions:</h3><ul>");
        houdini_text(hs, out);
        push_str_chars(out, "</ul>");
        assert(out@ =~= start + ("<h3>Houdini Versions:</h3><ul>"@ + houdini_items(houdini_view(hs@))
            + "</ul>"@));
    } else {
        push_str_chars(out, "<h4>No Houdini versions</h4>");
    }
}

fn push_redshift_section(out: &mut Vec<char>, rs: &[RedshiftVersion])
    ensures
        final(out)@ == old(out)@ + section(
            rs@.len() > 0,
            "<h3>Redshift Versions:</h3><ul>"@,
            redshift_items(redshift_view(rs@)),
            "<h4>No Redshift versions</h4>"@,
        ),
{
    let ghost start = out@;
    if rs.len() > 0 {
        push_str_chars(out, "<h3>Redshift Versions:</h3><ul>");
        redshift_text(rs, out);
        push_str_chars(out, "</ul>");
        assert(out@ =~= start + ("<h3>Redshift Versions:</h3><ul>"@ + redshift_items(
            redshift_view(rs@),
        ) + "</ul>"@));
    } else {
        push_str_chars(out, "<h4>No Redshift versions</h4>");
    }
}

fn push_gpu_section(out: &mut Vec<char>, ds: &[GpuDevice])
    ensures
        final(out)@ == old(out)@ + section(
            ds@.len() > 0,
            "<h3>GPU devices</h3><ul>\n                "@,
            gpu_items(ds@),
            "<h3>No GPU devices</h3>"@,
        ),
{
    let ghost start = out@;
    if ds.len() > 0 {
        push_str_chars(out, "<h3>GPU devices</h3><ul>\n                ");
        gpu_text(ds, out);
        push_str_chars(out, "</ul>");
        assert(out@ =~= start + ("<h3>GPU devices</h3><ul>\n                "@ + gpu_items(ds@)
            + "</ul>"@));
    } else {
        push_str_chars(out, "<h3>No GPU devices</h3>");
    }
}

fn push_config_part(
    out: &mut Vec<char>,
    db_path: Option<&str>,
    scratch_path: Option<&str>,
    blender_vers: &[BlenderVersion],
    houdini_vers: &[HoudiniVersion],
    redshift_vers: &[RedshiftVersion],
    gpu_devices: &[GpuDevice],
)
    ensures
        final(out)@ == old(out)@ + config_part(
            opt_str_view(db_path),
            opt_str_view(scratch_path),
            blender_view(blender_vers@),
            houdini_view(houdini_vers@),
            redshift_view(redshift_vers@),
            gpu_devices@,
        ),
{
    let ghost start = out@;
    let ghost db = opt_str_view(db_path);
    let ghost sc = opt_str_view(scratch_path);
    let ghost bv = blender_view(blender_vers@);
    let ghost hv = houdini_view(houdini_vers@);
    let ghost rv = redshift_view(redshift_vers@);
    push_str_chars(
        out,
        "<h5>Note: existing config files will be overwritten!</h5><h3>Database location:</h3>",
    );
    push_path_or_default(out, db_path);
    push_str_chars(out, "\n<h3>Shared Scratch location:</h3>");
    push_path_or_default(out, scratch_path);
    push_str_chars(out, "\n");
    let ghost p1 = "<h5>Note: existing config files will be overwritten!</h5><h3>Database location:</h3>"@
        + path_or_default(db) + "\n<h3>Shared Scratch location:</h3>"@ + path_or_default(sc) + "\n"@;
    assert(out@ =~= start + p1);
    push_blender_section(out, blender_vers);
    push_str_chars(out, "\n");
    let ghost p2 = p1 + section(
        bv.len() > 0,
        "<h3>Blender Versions:</h3><ul>"@,
        blender_items(bv),
        "<h4>No blender versions</h4>"@,
    ) + "\n"@;
    assert(out@ =~= start + p2);
    push_houdini_section(out, houdini_vers);
    push_str_chars(out, "\n");
    let ghost p3 = p2 + section(
        hv.len() > 0,
        "<h3>Houdini Versions:</h3><ul>"@,
        houdini_items(hv),
        "<h4>No Houdini versions</h4>"@,
    ) + "\n"@;
    assert(out@ =~= start + p3);
    push_redshift_section(out, redshift_vers);
    push_str_chars(out, "\n");
    let ghost p4 = p3 + section(
        rv.len() > 0,
        "<h3>Redshift Versions:</h3><ul>"@,
        redshift_items(rv),
        "<h4>No Redshift versions</h4>"@,
    ) + "\n"@;
    assert(out@ =~= start + p4);
    push_gpu_section(out, gpu_devices);
    push_str_chars(out, "\n");
    let ghost p5 = p4 + section(
        gpu_devices@.len() > 0,
        "<h3>GPU devices</h3><ul>\n                "@,
        gpu_items(gpu_devices@),
        "<h3>No GPU devices</h3>"@,
    ) + "\n"@;
    assert(out@ =~= start + p5);
    assert(p5 == config_part(db, sc, bv, hv, rv, gpu_devices@));
}

fn push_tools_part(out: &mut Vec<char>, houdini_tools_paths: &[String])
    ensures
        final(out)@ == old(out)@ + tools_part(strings_view(houdini_tools_paths@)),
{
    let ghost start = out@;
    push_str_chars(out, "<h3>Tools:</h3>");
    if houdini_tools_paths.len() > 0 {
        push_str_chars(out, "<h4>Submitting tools for Houdini installed to:</h4><ul>");
        tools_text(houdini_tools_paths, out);
        push_str_chars(out, "</ul>");
    } else {
        push_str_chars(out, "<br>No Lifeblood submitting tools for Houdini will be installed");
    }
    assert(out@ =~= start + tools_part(strings_view(houdini_tools_paths@)));
}

impl SummaryActivity {
    pub closed spec fn spec_text(&self) -> Seq<char> {
        self.text@
    }

    /// The summary of what the wizard is about to do.
    pub fn new(
        show_config_part: bool,
        show_tools_part: bool,
        db_path: Option<&str>,
        scratch_path: Option<&str>,
        blender_vers: &[BlenderVersion],
        houdini_vers: &[HoudiniVersion],
        houdini_tools_paths: &[String],
        redshift_vers: &[RedshiftVersion],
        gpu_devices: &[GpuDevice],
    ) -> (r: SummaryActivity)
        ensures
            r.spec_text() == summary_text(
                show_config_part,
                show_tools_part,
                opt_str_view(db_path),
                opt_str_view(scratch_path),
                blender_view(blender_vers@),
                houdini_view(houdini_vers@),
                strings_view(houdini_tools_paths@),
                redshift_view(redshift_vers@),
                gpu_devices@,
            ),
    {
        let mut out: Vec<char> = Vec::new();
        push_str_chars(&mut out, "<h1>Summary</h1>");
        let ghost s0 = out@;
        if show_config_part {
            push_config_part(&mut out, db_path, scratch_path, blender_vers, houdini_vers, redshift_vers, gpu_devices);
        }
        let ghost s1 = out@;
        if show_tools_part {
            push_tools_part(&mut out, houdini_tools_paths);
        }
        assert(out@ =~= summary_text(
            show_config_part,
            show_tools_part,
            opt_str_view(db_path),
            opt_str_view(scratch_path),
            blender_view(blender_vers@),
            houdini_view(houdini_vers@),
            strings_view(houdini_tools_paths@),
            redshift_view(redshift_vers@),
            gpu_devices@,
        ));
        SummaryActivity { text: from_chars(&out) }
    }

    /// The summary text shown.
    pub fn text(&self) -> (r: &str)
        ensures
            r@ == self.spec_text(),
    {
        self.text.as_str()
    }
}

} // verus!
