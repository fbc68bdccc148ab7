//! Which files a run reads and writes, and how it lays them out.

use crate::error::StitcherError;
use crate::grid::fills_grid;
use vstd::prelude::*;

verus! {

/// Relies on `String::push_str`: it appends `string` to the end of `s`.
pub assume_specification[ String::push_str ](s: &mut String, string: &str)
    ensures
        final(s)@ == old(s)@ + string@,
;

/// A run: the images to read, listed row by row, the shape of the grid they
/// fill, and the file to write.
#[derive(Debug)]
pub struct GridJob {
    pub inputs: Vec<String>,
    pub output: String,
    pub columns: u32,
    pub rows: u32,
}

/// What the texts of a sequence hold.
pub open spec fn texts(names: Seq<String>) -> Seq<Seq<char>> {
    names.map_values(|s: String| s@)
}

/// `job` is the run of the naming convention for `using`.
pub open spec fn is_named_job(job: GridJob, using: Seq<char>) -> bool {
    &&& texts(job.inputs@) == seq![
        using + "-tl.png"@,
        using + "-tr.png"@,
        using + "-bl.png"@,
        using + "-br.png"@,
    ]
    &&& job.output@ == using + "-out.png"@
    &&& job.columns == 2
    &&& job.rows == 2
}

/// `job` reads the four named corner images, two by two, and writes `out`.
pub open spec fn is_corner_job(
    job: GridJob,
    tl: Seq<char>,
    tr: Seq<char>,
    bl: Seq<char>,
    br: Seq<char>,
    out: Seq<char>,
) -> bool {
    &&& texts(job.inputs@) == seq![tl, tr, bl, br]
    &&& job.output@ == out
    &&& job.columns == 2
    &&& job.rows == 2
}

/// The value given, or one where none is.
pub open spec fn or_one(n: Option<u32>) -> u32 {
    match n {
        Some(v) => v,
        None => 1,
    }
}

/// `prefix` followed by `suffix`.
pub fn file_name(prefix: &str, suffix: &str) -> (name: String)
    ensures
        name@ == prefix@ + suffix@,
{
    let mut name = prefix.to_owned();
    name.push_str(suffix);
    name
}

/// The run that the naming convention gives for `using`: the four images
/// `<using>-tl.png`, `<using>-tr.png`, `<using>-bl.png` and `<using>-br.png`,
/// two by two, written to `<using>-out.png`.
pub fn stitch(using: &str) -> (job: GridJob)
    ensures
        is_named_job(job, using@),
{
    let mut inputs: Vec<String> = Vec::new();
    inputs.push(file_name(using, "-tl.png"));
    inputs.push(file_name(using, "-tr.png"));
    inputs.push(file_name(using, "-bl.png"));
    inputs.push(file_name(using, "-br.png"));
    let output = file_name(using, "-out.png");
    let job = GridJob { inputs, output, columns: 2, rows: 2 };
    assert(texts(job.inputs@) =~= seq![
        using@ + "-tl.png"@,
        using@ + "-tr.png"@,
        using@ + "-bl.png"@,
        using@ + "-br.png"@,
    ]);
    job
}

/// The run that names the four corner images and the output itself.
pub fn corner_job(tl: String, tr: String, bl: String, br: String, out: String) -> (job: GridJob)
    ensures
        is_corner_job(job, tl@, tr@, bl@, br@, out@),
{
    let ghost names = seq![tl@, tr@, bl@, br@];
    let mut inputs: Vec<String> = Vec::new();
    inputs.push(tl);
    inputs.push(tr);
    inputs.push(bl);
    inputs.push(br);
    let job = GridJob { inputs, output: out, columns: 2, rows: 2 };
    assert(texts(job.inputs@) =~= names);
    job
}

/// The run that the four-corner command line asks for: by the naming
/// convention where `using` is given; else by the four corners and the output
/// where all five are given; else nothing where none is, and
/// `CommandLineParsingError` where only some are.
pub fn select_corner_job(
    using: Option<String>,
    tl: Option<String>,
    tr: Option<String>,
    bl: Option<String>,
    br: Option<String>,
    out: Option<String>,
) -> (r: Result<Option<GridJob>, StitcherError>)
    ensures
        using is Some ==> (r matches Ok(Some(job)) && is_named_job(job, using->0@)),
        using is None && tl is Some && tr is Some && bl is Some && br is Some && out is Some ==> (r matches Ok(
            Some(job),
        ) && is_corner_job(job, tl->0@, tr->0@, bl->0@, br->0@, out->0@)),
        using is None && tl is None && tr is None && bl is None && br is None && out is None ==> r
            == Ok::<Option<GridJob>, StitcherError>(None),
        using is None && (tl is Some || tr is Some || bl is Some || br is Some || out is Some) && (tl is None
            || tr is None || bl is None || br is None || out is None) ==> r == Err::<
            Option<GridJob>,
            StitcherError,
        >(StitcherError::CommandLineParsingError),
{
    if let Some(using) = using {
        return Ok(Some(stitch(using.as_str())));
    }
    match (tl, tr, bl, br, out) {
        (Some(tl), Some(tr), Some(bl), Some(br), Some(out)) => Ok(Some(corner_job(tl, tr, bl, br, out))),
        (None, None, None, None, None) => Ok(None),
        _ => Err(StitcherError::CommandLineParsingError),
    }
}

/// The run that the grid command line asks for: `images` on a grid of
/// `columns` by `rows` cells, one each where not given, written to `output`.
/// `CommandLineParsingError` where there is no output, or where the images do
/// not fill a grid of at least one column and one row.
pub fn grid_job(images: Vec<String>, columns: Option<u32>, rows: Option<u32>, output: Option<String>) -> (r: Result<
    GridJob,
    StitcherError,
>)
    ensures
        output is None || !fills_grid(images@.len(), or_one(columns) as nat, or_one(rows) as nat) ==> r
            == Err::<GridJob, StitcherError>(StitcherError::CommandLineParsingError),
        output is Some && fills_grid(images@.len(), or_one(columns) as nat, or_one(rows) as nat) ==> (r matches Ok(job)
            && job.inputs@ == images@ && job.output@ == output->0@ && job.columns == or_one(columns) && job.rows
            == or_one(rows)),
{
    let columns = match columns {
        Some(n) => n,
        None => 1,
    };
    let rows = match rows {
        Some(n) => n,
        None => 1,
    };
    let output = match output {
        Some(o) => o,
        None => return Err(StitcherError::CommandLineParsingError),
    };
    assert(columns * rows <= u64::MAX) by (nonlinear_arith)
        requires
            columns <= u32::MAX,
            rows <= u32::MAX,
    ;
    if columns == 0 || rows == 0 || images.len() as u64 != columns as u64 * rows as u64 {
        return Err(StitcherError::CommandLineParsingError);
    }
    Ok(GridJob { inputs: images, output, columns, rows })
}

} // verus!
