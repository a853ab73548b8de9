use vstd::prelude::*;
use vstd::string::*;
use crate::errors::Error;
use crate::normalize::{collapse_newlines, is_collapsed};
use crate::schema::{spec_lookup, Config, File};
use crate::vars::{merged_vars, Vars};

verus! {

/// Everything the pipeline needs about one template, loaded up front by
/// the caller: the identifier it is registered and rendered under, the
/// template text, whether the template source file carries an execute
/// permission bit, and the sidecar configuration.
#[derive(Debug)]
pub struct TemplateData {
    pub name: String,
    pub body: String,
    pub executable: bool,
    pub config: crate::schema::TemplateConfig,
}

/// One render work item: a template to render for one output file, with
/// the fully merged variable set for that file.
#[derive(Debug)]
pub struct RenderJob {
    pub template: String,
    pub repo: String,
    pub path: String,
    pub executable: bool,
    pub vars: Vars,
}

/// Number of output files declared by the templates before index `t`.
pub open spec fn files_before(templates: Seq<TemplateData>, t: int) -> int
    decreases t,
{
    if t <= 0 {
        0
    } else {
        files_before(templates, t - 1) + templates[t - 1].config.files@.len()
    }
}

pub proof fn lemma_files_before_mono(templates: Seq<TemplateData>, t1: int, t2: int)
    requires
        0 <= t1 <= t2,
    ensures
        files_before(templates, t1) <= files_before(templates, t2),
    decreases t2 - t1,
{
    if t1 < t2 {
        lemma_files_before_mono(templates, t1, t2 - 1);
    }
}

/// Every in-range (template, file) position owns one slot in the flattened
/// job list, inside its template's block.
pub proof fn lemma_entry_pos(templates: Seq<TemplateData>, t: int, f: int)
    requires
        0 <= t < templates.len(),
        0 <= f < templates[t].config.files@.len(),
    ensures
        0 <= files_before(templates, t) + f,
        files_before(templates, t) + f < files_before(templates, t + 1),
        files_before(templates, t + 1) <= files_before(templates, templates.len() as int),
{
    lemma_files_before_mono(templates, 0, t);
    lemma_files_before_mono(templates, t + 1, templates.len() as int);
}

/// Distinct (template, file) positions occupy distinct slots.
pub proof fn lemma_entry_pos_distinct(templates: Seq<TemplateData>, t1: int, f1: int, t2: int, f2: int)
    requires
        0 <= t1 < templates.len(),
        0 <= f1 < templates[t1].config.files@.len(),
        0 <= t2 < templates.len(),
        0 <= f2 < templates[t2].config.files@.len(),
        t1 != t2 || f1 != f2,
    ensures
        files_before(templates, t1) + f1 != files_before(templates, t2) + f2,
{
    if t1 < t2 {
        lemma_entry_pos(templates, t1, f1);
        lemma_files_before_mono(templates, t1 + 1, t2);
    } else if t2 < t1 {
        lemma_entry_pos(templates, t2, f2);
        lemma_files_before_mono(templates, t2 + 1, t1);
    }
}

/// Every slot below the running total comes from some earlier in-range
/// (template, file) position; the lemma hands that position back.
pub proof fn lemma_index_to_entry(templates: Seq<TemplateData>, t: int, f: int, k: int) -> (r: (
    int,
    int,
))
    requires
        0 <= t <= templates.len(),
        t < templates.len() ==> 0 <= f <= templates[t].config.files@.len(),
        t == templates.len() ==> f == 0,
        0 <= k < files_before(templates, t) + f,
    ensures
        0 <= r.0 < templates.len(),
        0 <= r.1 < templates[r.0].config.files@.len(),
        files_before(templates, r.0) + r.1 == k,
        r.0 < t || (r.0 == t && r.1 < f),
    decreases t,
{
    if k >= files_before(templates, t) {
        assert(0 <= t < templates.len());
        (t, k - files_before(templates, t))
    } else {
        assert(t > 0) by {
            if t <= 0 {
                assert(files_before(templates, t) == 0);
            }
        }
        lemma_index_to_entry(templates, t - 1, templates[t - 1].config.files@.len() as int, k)
    }
}

/// Two files that would land at the same output location.
pub open spec fn same_output(a: File, b: File) -> bool {
    a.repo@ == b.repo@ && a.path@ == b.path@
}

/// Every file entry names a configured repository.
pub open spec fn lookups_ok(cfg: Config, templates: Seq<TemplateData>) -> bool {
    forall|t: int, f: int|
        #![trigger templates[t].config.files@[f]]
        0 <= t < templates.len() && 0 <= f < templates[t].config.files@.len()
            ==> cfg.has_repo(templates[t].config.files@[f].repo@)
}

/// No two file entries, across all templates, share an output location.
pub open spec fn distinct_outputs(templates: Seq<TemplateData>) -> bool {
    forall|t1: int, f1: int, t2: int, f2: int|
        #![trigger templates[t1].config.files@[f1], templates[t2].config.files@[f2]]
        0 <= t1 < templates.len() && 0 <= f1 < templates[t1].config.files@.len() && 0 <= t2
            < templates.len() && 0 <= f2 < templates[t2].config.files@.len() && (t1 != t2 || f1
            != f2) ==> !same_output(
            templates[t1].config.files@[f1],
            templates[t2].config.files@[f2],
        )
}

/// What the job planned for position (t, f) must hold: the owning
/// template's name and execute flag, the file's destination, and the
/// file's variable set merged in precedence order — global, then
/// template, then repository, then file.
pub open spec fn job_expected(
    cfg: Config,
    templates: Seq<TemplateData>,
    t: int,
    f: int,
    job: RenderJob,
) -> bool {
    let file = templates[t].config.files@[f];
    &&& job.template == templates[t].name
    &&& job.executable == templates[t].executable
    &&& job.repo == file.repo
    &&& job.path == file.path
    &&& spec_lookup(cfg.repos@, file.repo@) matches Some(rp) && job.vars@ == merged_vars(
        cfg.vars@,
        templates[t].config.vars@,
        rp.vars@,
        file.vars@,
    )
}

/// The precedence law at the pipeline level: in the variable set a
/// planned job hands to the engine, a key defined at several scopes takes
/// the value of the most specific scope that defines it — the file's own
/// overrides first, then the repository's, then the template's, then the
/// global set — and a key is present exactly when some scope defines it.
pub proof fn lemma_job_precedence(
    cfg: Config,
    templates: Seq<TemplateData>,
    t: int,
    f: int,
    job: RenderJob,
    k: Seq<char>,
)
    requires
        0 <= t < templates.len(),
        0 <= f < templates[t].config.files@.len(),
        job_expected(cfg, templates, t, f, job),
    ensures
        ({
            let file = templates[t].config.files@[f];
            let global = cfg.vars@;
            let template = templates[t].config.vars@;
            let repo = spec_lookup(cfg.repos@, file.repo@).unwrap().vars@;
            &&& (job.vars@.contains_key(k) <==> (global.contains_key(k) || template.contains_key(k)
                || repo.contains_key(k) || file.vars@.contains_key(k)))
            &&& (file.vars@.contains_key(k) ==> job.vars@[k] == file.vars@[k])
            &&& (!file.vars@.contains_key(k) && repo.contains_key(k) ==> job.vars@[k] == repo[k])
            &&& (!file.vars@.contains_key(k) && !repo.contains_key(k) && template.contains_key(k)
                ==> job.vars@[k] == template[k])
            &&& (!file.vars@.contains_key(k) && !repo.contains_key(k) && !template.contains_key(k)
                && global.contains_key(k) ==> job.vars@[k] == global[k])
        }),
{
    let file = templates[t].config.files@[f];
    let rp = spec_lookup(cfg.repos@, file.repo@).unwrap();
    crate::vars::lemma_var_precedence(
        cfg.vars@,
        templates[t].config.vars@,
        rp.vars@,
        file.vars@,
        k,
    );
}

/// Walk the configuration in order and plan one render job per declared
/// file, resolving each file's repository and merging its variable scopes.
/// Succeeds exactly when every file entry names a configured repository
/// and no two entries collide on an output location; a collision is
/// reported with the duplicated output path.
pub fn plan_render(cfg: &Config, templates: &Vec<TemplateData>) -> (r: Result<
    Vec<RenderJob>,
    Error,
>)
    ensures
        match r {
            Ok(jobs) => {
                &&& lookups_ok(*cfg, templates@)
                &&& distinct_outputs(templates@)
                &&& jobs@.len() == files_before(templates@, templates@.len() as int)
                &&& forall|t: int, f: int|
                    #![trigger templates@[t].config.files@[f]]
                    0 <= t < templates@.len() && 0 <= f < templates@[t].config.files@.len()
                        ==> job_expected(
                        *cfg,
                        templates@,
                        t,
                        f,
                        jobs@[files_before(templates@, t) + f],
                    )
            },
            Err(e) => match e {
                Error::NoSuchRepo(n) => missing_repo_reported(*cfg, templates@, n),
                Error::Conflict(p) => conflict_reported(templates@, p),
                _ => false,
            },
        },
{
    let mut jobs: Vec<RenderJob> = Vec::new();
    let mut ti: usize = 0;
    while ti < templates.len()
        invariant
            ti <= templates@.len(),
            jobs@.len() == files_before(templates@, ti as int),
            forall|tj: int, fj: int|
                #![trigger templates@[tj].config.files@[fj]]
                0 <= tj < ti && 0 <= fj < templates@[tj].config.files@.len() ==> {
                    &&& cfg.has_repo(templates@[tj].config.files@[fj].repo@)
                    &&& job_expected(
                        *cfg,
                        templates@,
                        tj,
                        fj,
                        jobs@[files_before(templates@, tj) + fj],
                    )
                },
            forall|a: int, b: int|
                0 <= a < b < jobs@.len() ==> !(jobs@[a].repo@ == jobs@[b].repo@ && jobs@[a].path@
                    == jobs@[b].path@),
        decreases templates@.len() - ti,
    {
        let tcfg_files_len = templates[ti].config.files.len();
        let mut fi: usize = 0;
        while fi < tcfg_files_len
            invariant
                0 <= ti < templates@.len(),
                tcfg_files_len == templates@[ti as int].config.files@.len(),
                fi <= tcfg_files_len,
                jobs@.len() == files_before(templates@, ti as int) + fi,
                forall|tj: int, fj: int|
                    #![trigger templates@[tj].config.files@[fj]]
                    (0 <= tj < ti && 0 <= fj < templates@[tj].config.files@.len()) || (tj == ti && 0
                        <= fj < fi) ==> {
                        &&& cfg.has_repo(templates@[tj].config.files@[fj].repo@)
                        &&& job_expected(
                            *cfg,
                            templates@,
                            tj,
                            fj,
                            jobs@[files_before(templates@, tj) + fj],
                        )
                    },
                forall|a: int, b: int|
                    0 <= a < b < jobs@.len() ==> !(jobs@[a].repo@ == jobs@[b].repo@
                        && jobs@[a].path@ == jobs@[b].path@),
            decreases tcfg_files_len - fi,
        {
            let file = &templates[ti].config.files[fi];
            let repo = match file.repo(cfg) {
                Ok(rp) => rp,
                Err(e) => {
                    return Err(e);
                },
            };
            // scan earlier jobs for a second producer of the same output
            let mut k: usize = 0;
            while k < jobs.len()
                invariant
                    0 <= ti < templates@.len(),
                    0 <= fi < templates@[ti as int].config.files@.len(),
                    file == &templates@[ti as int].config.files@[fi as int],
                    k <= jobs@.len(),
                    jobs@.len() == files_before(templates@, ti as int) + fi,
                    forall|tj: int, fj: int|
                        #![trigger templates@[tj].config.files@[fj]]
                        (0 <= tj < ti && 0 <= fj < templates@[tj].config.files@.len()) || (tj == ti
                            && 0 <= fj < fi) ==> job_expected(
                            *cfg,
                            templates@,
                            tj,
                            fj,
                            jobs@[files_before(templates@, tj) + fj],
                        ),
                    forall|a: int| 0 <= a < k ==> !(jobs@[a].repo@ == file.repo@ && jobs@[a].path@
                        == file.path@),
                decreases jobs@.len() - k,
            {
                if jobs[k].repo == file.repo && jobs[k].path == file.path {
                    proof {
                        let (tj, fj) = lemma_index_to_entry(
                            templates@,
                            ti as int,
                            fi as int,
                            k as int,
                        );
                        assert(job_expected(*cfg, templates@, tj, fj, jobs@[k as int]));
                        assert(same_output(
                            templates@[tj].config.files@[fj],
                            templates@[ti as int].config.files@[fi as int],
                        ));
                    }
                    return Err(Error::Conflict(file.path()));
                }
                k = k + 1;
            }
            let vars = cfg.vars.layered(&templates[ti].config.vars).layered(&repo.vars).layered(
                &file.vars,
            );
            let job = RenderJob {
                template: templates[ti].name.clone(),
                repo: file.repo.clone(),
                path: file.path.clone(),
                executable: templates[ti].executable,
                vars,
            };
            let ghost gjob = job;
            let ghost old_jobs = jobs@;
            proof {
                assert(job_expected(*cfg, templates@, ti as int, fi as int, gjob));
            }
            jobs.push(job);
            proof {
                assert(jobs@ == old_jobs.push(gjob));
                assert forall|tj: int, fj: int|
                    (0 <= tj < ti && 0 <= fj < templates@[tj].config.files@.len()) || (tj == ti && 0
                        <= fj < fi + 1) implies {
                    &&& cfg.has_repo(#[trigger] templates@[tj].config.files@[fj].repo@)
                    &&& job_expected(
                        *cfg,
                        templates@,
                        tj,
                        fj,
                        jobs@[files_before(templates@, tj) + fj],
                    )
                } by {
                    let idx = files_before(templates@, tj) + fj;
                    if tj == ti && fj == fi {
                        assert(idx == old_jobs.len());
                        assert(jobs@[idx] == gjob);
                    } else {
                        lemma_entry_pos(templates@, tj, fj);
                        if tj < ti {
                            lemma_files_before_mono(templates@, tj + 1, ti as int);
                        }
                        assert(0 <= idx < old_jobs.len());
                        assert(jobs@[idx] == old_jobs[idx]);
                        assert(job_expected(*cfg, templates@, tj, fj, old_jobs[idx]));
                    }
                }
                assert forall|a: int, b: int| 0 <= a < b < jobs@.len() implies !(jobs@[a].repo@
                    == jobs@[b].repo@ && jobs@[a].path@ == jobs@[b].path@) by {
                    assert(jobs@[a] == old_jobs[a]);
                    if b == jobs@.len() - 1 {
                        assert(jobs@[b] == gjob);
                    } else {
                        assert(jobs@[b] == old_jobs[b]);
                    }
                }
            }
            fi = fi + 1;
        }
        ti = ti + 1;
    }
    proof {
        assert forall|t1: int, f1: int, t2: int, f2: int|
            0 <= t1 < templates@.len() && 0 <= f1 < templates@[t1].config.files@.len() && 0 <= t2
                < templates@.len() && 0 <= f2 < templates@[t2].config.files@.len() && (t1 != t2
                || f1 != f2) implies !same_output(
            #[trigger] templates@[t1].config.files@[f1],
            #[trigger] templates@[t2].config.files@[f2],
        ) by {
            lemma_entry_pos(templates@, t1, f1);
            lemma_entry_pos(templates@, t2, f2);
            lemma_entry_pos_distinct(templates@, t1, f1, t2, f2);
            let p1 = files_before(templates@, t1) + f1;
            let p2 = files_before(templates@, t2) + f2;
            assert(job_expected(*cfg, templates@, t1, f1, jobs@[p1]));
            assert(job_expected(*cfg, templates@, t2, f2, jobs@[p2]));
        }
    }
    Ok(jobs)
}

/// An error report of a file entry naming an unknown repository: some
/// declared file references `n`, and `n` is not configured.
pub open spec fn missing_repo_reported(cfg: Config, templates: Seq<TemplateData>, n: String) -> bool {
    exists|t: int, f: int|
        #![trigger templates[t].config.files@[f]]
        {
            &&& 0 <= t < templates.len()
            &&& 0 <= f < templates[t].config.files@.len()
            &&& templates[t].config.files@[f].repo == n
            &&& !cfg.has_repo(n@)
        }
}

/// An error report of two file entries colliding on one output location,
/// `p` being the duplicated output path.
pub open spec fn conflict_reported(templates: Seq<TemplateData>, p: String) -> bool {
    exists|t1: int, f1: int, t2: int, f2: int|
        #![trigger templates[t1].config.files@[f1], templates[t2].config.files@[f2]]
        {
            &&& 0 <= t1 < templates.len()
            &&& 0 <= f1 < templates[t1].config.files@.len()
            &&& 0 <= t2 < templates.len()
            &&& 0 <= f2 < templates[t2].config.files@.len()
            &&& (t1 != t2 || f1 != f2)
            &&& same_output(templates[t1].config.files@[f1], templates[t2].config.files@[f2])
            &&& p@ == templates[t2].config.files@[f2].output_path_spec()
        }
}

/// The (name, body) pairs a template list hands to the engine's batch
/// parse.
pub open spec fn template_pairs(templates: Seq<TemplateData>) -> Seq<(Seq<char>, Seq<char>)> {
    templates.map_values(|t: TemplateData| (t.name@, t.body@))
}

/// Whether the engine refuses this template set up front: a syntax error
/// in some body, or an inheritance chain that cannot be built.  The
/// verdict depends on the (name, body) pairs alone.
pub uninterp spec fn tera_parse_fails(pairs: Seq<(Seq<char>, Seq<char>)>) -> bool;

/// What a reported template error must be: either the up-front batch
/// parse refused the set — before anything rendered — under the parse
/// diagnostic, or the set parsed, planning found nothing wrong, and some
/// declared file's render failed, under a diagnostic naming that file.
pub open spec fn template_error_reported(
    cfg: Config,
    templates: Seq<TemplateData>,
    m: String,
) -> bool {
    ||| (tera_parse_fails(template_pairs(templates)) && "parsing templates: "@.is_prefix_of(m@))
    ||| ({
        &&& !tera_parse_fails(template_pairs(templates))
        &&& lookups_ok(cfg, templates)
        &&& distinct_outputs(templates)
        &&& exists|t: int, f: int|
            #![trigger templates[t].config.files@[f]]
            {
                &&& 0 <= t < templates.len()
                &&& 0 <= f < templates[t].config.files@.len()
                &&& ("rendering "@ + templates[t].config.files@[f].repo@ + "/"@
                    + templates[t].config.files@[f].path@ + ": "@).is_prefix_of(m@)
            }
    })
}

/// What a reported context error presupposes: the template set parsed and
/// planning found nothing wrong; only building some file's engine context
/// failed.
pub open spec fn context_error_reported(cfg: Config, templates: Seq<TemplateData>) -> bool {
    &&& !tera_parse_fails(template_pairs(templates))
    &&& lookups_ok(cfg, templates)
    &&& distinct_outputs(templates)
}

/// Exactly which failures the rendering pipeline may report, and what
/// each presupposes.
pub open spec fn pipeline_error_reported(
    cfg: Config,
    templates: Seq<TemplateData>,
    e: Error,
) -> bool {
    match e {
        Error::NoSuchRepo(n) => !tera_parse_fails(template_pairs(templates))
            && missing_repo_reported(cfg, templates, n),
        Error::Conflict(p) => !tera_parse_fails(template_pairs(templates)) && conflict_reported(
            templates,
            p,
        ),
        Error::Template(m) => template_error_reported(cfg, templates, m),
        Error::Context(_) => context_error_reported(cfg, templates),
        _ => false,
    }
}

#[verifier::external_type_specification]
#[verifier::external_body]
pub struct ExTera(tera::Tera);

#[verifier::external_type_specification]
#[verifier::external_body]
pub struct ExTeraContext(tera::Context);

/// What an engine context binds, keyed by variable name, each value
/// attributed as the YAML text it was built from.
pub uninterp spec fn context_vars(c: tera::Context) -> Map<Seq<char>, Seq<char>>;

/// Whether the engine's value space rejects a variable's YAML text: the
/// text does not parse as YAML, or the parsed datum does not convert to
/// an engine value.  The verdict depends on the text alone.
pub uninterp spec fn context_value_rejected(text: Seq<char>) -> bool;

impl Vars {
    /// Relies on tera::Context::try_insert: every value string is parsed
    /// as YAML and inserted under its key, later pairs overwriting earlier
    /// ones, exactly as the overlay order prescribes, so the built context
    /// binds exactly this overlay's mapping.  Fails exactly when the
    /// engine's value space rejects some value's text.
    #[verifier::external_body]
    pub fn to_context(&self) -> (r: Result<tera::Context, String>)
        ensures
            r matches Ok(c) ==> context_vars(c) == self@,
            r is Ok <==> (forall|i: int|
                0 <= i < self.pairs@.len() ==> !context_value_rejected(
                    #[trigger] self.pairs@[i].value@,
                )),
    {
        let mut ctx = tera::Context::new();
        for p in self.pairs.iter() {
            let v: serde_yaml::Value = match serde_yaml::from_str(&p.value) {
                Ok(v) => v,
                Err(e) => return Err(e.to_string()),
            };
            if let Err(e) = ctx.try_insert(p.key.as_str(), &v) {
                return Err(e.to_string());
            }
        }
        Ok(ctx)
    }
}

/// Relies on tera::Tera::add_raw_templates: registers every (name, body)
/// pair and parses them up front; a syntax or inheritance error in any
/// template refuses the whole set before anything renders, and the
/// verdict depends on the pairs alone.
#[verifier::external_body]
fn tera_with_templates(templates: &Vec<TemplateData>) -> (r: Result<tera::Tera, String>)
    ensures
        r is Ok <==> !tera_parse_fails(template_pairs(templates@)),
{
    let mut engine = tera::Tera::default();
    let pairs: Vec<(&str, &str)> = templates.iter().map(
        |t| (t.name.as_str(), t.body.as_str()),
    ).collect();
    match engine.add_raw_templates(pairs) {
        Ok(()) => Ok(engine),
        Err(e) => Err(e.to_string()),
    }
}

/// Relies on tera::Tera::render: renders one registered template with the
/// given context.  Engine builtins may read the clock or the environment,
/// so nothing is claimed about the produced text.
#[verifier::external_body]
fn tera_render(engine: &tera::Tera, name: &str, ctx: &tera::Context) -> (r: Result<
    Vec<u8>,
    String,
>) {
    match engine.render(name, ctx) {
        Ok(s) => Ok(s.into_bytes()),
        Err(e) => Err(e.to_string()),
    }
}

/// One rendered artifact: where it belongs, its normalized bytes, and
/// whether it must be written executable.
#[derive(Debug)]
pub struct RenderedTemplate {
    pub repo: String,
    pub path: String,
    pub contents: Vec<u8>,
    pub executable: bool,
}

/// What the artifact produced for position (t, f) must hold: the file's
/// destination, the owning template's execute flag, and contents in
/// newline-normal form.
pub open spec fn artifact_expected(
    templates: Seq<TemplateData>,
    t: int,
    f: int,
    art: RenderedTemplate,
) -> bool {
    let file = templates[t].config.files@[f];
    &&& art.repo == file.repo
    &&& art.path == file.path
    &&& art.executable == templates[t].executable
    &&& is_collapsed(art.contents@)
}

/// The shape of a successful whole-configuration render: every file entry
/// resolved, no output collisions, and one artifact per declared file, in
/// declaration order.
pub open spec fn render_success(
    cfg: Config,
    templates: Seq<TemplateData>,
    arts: Seq<RenderedTemplate>,
) -> bool {
    &&& lookups_ok(cfg, templates)
    &&& distinct_outputs(templates)
    &&& arts.len() == files_before(templates, templates.len() as int)
    &&& forall|t: int, f: int|
        #![trigger templates[t].config.files@[f]]
        0 <= t < templates.len() && 0 <= f < templates[t].config.files@.len()
            ==> artifact_expected(templates, t, f, arts[files_before(templates, t) + f])
}

/// An artifact carries its job's destination and flag, with normalized
/// contents.
pub open spec fn art_matches_job(art: RenderedTemplate, job: RenderJob) -> bool {
    &&& art.repo == job.repo
    &&& art.path == job.path
    &&& art.executable == job.executable
    &&& is_collapsed(art.contents@)
}

/// Render the whole configuration in memory: plan every (template, file)
/// pair in order, render each with its merged variable set, and normalize
/// the output.  Succeeds exactly when the plan is sound and the engine
/// accepts every template and render call; no filesystem is touched.
pub fn do_render(cfg: &Config, templates: &Vec<TemplateData>) -> (r: Result<
    Vec<RenderedTemplate>,
    Error,
>)
    ensures
        match r {
            Ok(arts) => render_success(*cfg, templates@, arts@) && !tera_parse_fails(
                template_pairs(templates@),
            ),
            Err(e) => pipeline_error_reported(*cfg, templates@, e),
        },
{
    let engine = match tera_with_templates(templates) {
        Ok(t) => t,
        Err(msg) => {
            let mut m = String::from_str("parsing templates: ");
            m.append(msg.as_str());
            proof {
                let p = "parsing templates: "@;
                assert(p.is_prefix_of(m@)) by {
                    assert(m@.subrange(0, p.len() as int) =~= p);
                }
            }
            return Err(Error::Template(m));
        },
    };
    let jobs = match plan_render(cfg, templates) {
        Ok(j) => j,
        Err(e) => {
            return Err(e);
        },
    };
    let mut arts: Vec<RenderedTemplate> = Vec::new();
    let mut k: usize = 0;
    while k < jobs.len()
        invariant
            k <= jobs@.len(),
            arts@.len() == k,
            !tera_parse_fails(template_pairs(templates@)),
            lookups_ok(*cfg, templates@),
            distinct_outputs(templates@),
            jobs@.len() == files_before(templates@, templates@.len() as int),
            forall|t: int, f: int|
                #![trigger templates@[t].config.files@[f]]
                0 <= t < templates@.len() && 0 <= f < templates@[t].config.files@.len()
                    ==> job_expected(*cfg, templates@, t, f, jobs@[files_before(templates@, t) + f]),
            forall|i: int| 0 <= i < k ==> art_matches_job(#[trigger] arts@[i], jobs@[i]),
        decreases jobs@.len() - k,
    {
        let job = &jobs[k];
        let ctx = match job.vars.to_context() {
            Ok(c) => c,
            Err(msg) => {
                return Err(Error::Context(msg));
            },
        };
        let raw = match tera_render(&engine, job.template.as_str(), &ctx) {
            Ok(b) => b,
            Err(msg) => {
                let mut m = String::from_str("rendering ");
                m.append(job.repo.as_str());
                m.append("/");
                m.append(job.path.as_str());
                m.append(": ");
                m.append(msg.as_str());
                proof {
                    let (t, f) = lemma_index_to_entry(
                        templates@,
                        templates@.len() as int,
                        0,
                        k as int,
                    );
                    assert(job_expected(*cfg, templates@, t, f, jobs@[k as int]));
                    let file = templates@[t].config.files@[f];
                    let p = "rendering "@ + file.repo@ + "/"@ + file.path@ + ": "@;
                    assert(m@ == p + msg@);
                    assert(p.is_prefix_of(m@)) by {
                        assert(m@.subrange(0, p.len() as int) =~= p);
                    }
                }
                return Err(Error::Template(m));
            },
        };
        let contents = collapse_newlines(&raw);
        arts.push(
            RenderedTemplate {
                repo: job.repo.clone(),
                path: job.path.clone(),
                contents,
                executable: job.executable,
            },
        );
        k = k + 1;
    }
    proof {
        assert forall|t: int, f: int|
            0 <= t < templates@.len() && 0 <= f < (
            #[trigger] templates@[t].config.files@[f],
            templates@[t].config.files@.len(),
        ).1 implies artifact_expected(
            templates@,
            t,
            f,
            arts@[files_before(templates@, t) + f],
        ) by {
            lemma_entry_pos(templates@, t, f);
            lemma_files_before_mono(templates@, t + 1, templates@.len() as int);
            let idx = files_before(templates@, t) + f;
            assert(job_expected(*cfg, templates@, t, f, jobs@[idx]));
            assert(art_matches_job(arts@[idx], jobs@[idx]));
        }
    }
    Ok(arts)
}

/// A copy of a byte vector.
fn clone_bytes(v: &Vec<u8>) -> (r: Vec<u8>)
    ensures
        r@ == v@,
{
    let mut r: Vec<u8> = Vec::new();
    let mut i: usize = 0;
    while i < v.len()
        invariant
            i <= v@.len(),
            r@ =~= v@.take(i as int),
        decreases v@.len() - i,
    {
        r.push(v[i]);
        i = i + 1;
    }
    proof {
        assert(r@ =~= v@);
    }
    r
}

/// One file to materialize: its path below the output root, its bytes,
/// and whether it must carry execute permission.
#[derive(Debug)]
pub struct WriteJob {
    pub path: String,
    pub contents: Vec<u8>,
    pub executable: bool,
}

/// The (path, contents, executable) triples of a write list.
pub open spec fn write_job_views(ws: Seq<WriteJob>) -> Seq<(Seq<char>, Seq<u8>, bool)> {
    ws.map_values(|w: WriteJob| (w.path@, w.contents@, w.executable))
}

/// The write list a render produces.  Unrestricted, every artifact lands
/// under `<repo>/<path>`; restricted to repository `n`, exactly that
/// repository's artifacts land, each under its bare path (the `<repo>/`
/// prefix stripped), and every other repository's artifacts are dropped.
pub open spec fn write_jobs_spec(arts: Seq<RenderedTemplate>, only: Option<String>) -> Seq<
    (Seq<char>, Seq<u8>, bool),
>
    decreases arts.len(),
{
    if arts.len() == 0 {
        Seq::empty()
    } else {
        let rest = write_jobs_spec(arts.drop_last(), only);
        let a = arts.last();
        match only {
            None => rest.push((a.repo@ + seq!['/'] + a.path@, a.contents@, a.executable)),
            Some(n) => if a.repo@ == n@ {
                rest.push((a.path@, a.contents@, a.executable))
            } else {
                rest
            },
        }
    }
}

/// Restricting a render to one repository keeps exactly that repository's
/// artifacts, in order, each under its path with the repository prefix
/// stripped; artifacts of every other repository are not written.
pub proof fn lemma_repo_filter(arts: Seq<RenderedTemplate>, n: String)
    ensures
        write_jobs_spec(arts, Some(n)) == arts.filter(|a: RenderedTemplate| a.repo@ == n@)
            .map_values(|a: RenderedTemplate| (a.path@, a.contents@, a.executable)),
    decreases arts.len(),
{
    reveal(Seq::filter);
    let pred = |a: RenderedTemplate| a.repo@ == n@;
    let f = |a: RenderedTemplate| (a.path@, a.contents@, a.executable);
    if arts.len() == 0 {
        assert(write_jobs_spec(arts, Some(n)) =~= arts.filter(pred).map_values(f));
    } else {
        lemma_repo_filter(arts.drop_last(), n);
        let d = arts.drop_last();
        let a = arts.last();
        if pred(a) {
            assert(arts.filter(pred) == d.filter(pred).push(a));
            assert(d.filter(pred).push(a).map_values(f) =~= d.filter(pred).map_values(f).push(
                f(a),
            ));
            assert(write_jobs_spec(arts, Some(n)) =~= arts.filter(pred).map_values(f));
        } else {
            assert(arts.filter(pred) == d.filter(pred));
            assert(write_jobs_spec(arts, Some(n)) =~= arts.filter(pred).map_values(f));
        }
    }
}

/// Render the whole configuration and lay the artifacts out for writing
/// below an output root.  With `only_repo` set, only that repository's
/// artifacts are produced, each with the `<repo>/` prefix stripped; a
/// restriction to an unconfigured repository is refused before anything
/// renders.
pub fn render(cfg: &Config, templates: &Vec<TemplateData>, only_repo: &Option<String>) -> (r:
    Result<Vec<WriteJob>, Error>)
    ensures
        match r {
            Ok(ws) => {
                &&& match *only_repo {
                    Some(n) => cfg.has_repo(n@),
                    None => true,
                }
                &&& !tera_parse_fails(template_pairs(templates@))
                &&& exists|arts: Seq<RenderedTemplate>|
                    #![trigger render_success(*cfg, templates@, arts)]
                    render_success(*cfg, templates@, arts) && write_job_views(ws@)
                        == write_jobs_spec(arts, *only_repo)
            },
            Err(e) => {
                ||| (match (e, *only_repo) {
                    (Error::NoSuchRepo(m), Some(n)) => m == n && !cfg.has_repo(n@),
                    _ => false,
                })
                ||| ({
                    &&& match *only_repo {
                        Some(n) => cfg.has_repo(n@),
                        None => true,
                    }
                    &&& pipeline_error_reported(*cfg, templates@, e)
                })
            },
        },
{
    match only_repo {
        Some(name) => {
            if !cfg.contains_repo(name) {
                return Err(Error::NoSuchRepo(name.clone()));
            }
        },
        None => {},
    }
    let arts = match do_render(cfg, templates) {
        Ok(a) => a,
        Err(e) => {
            return Err(e);
        },
    };
    let mut ws: Vec<WriteJob> = Vec::new();
    let mut i: usize = 0;
    proof {
        assert(arts@.take(0).len() == 0);
        assert(write_job_views(ws@) =~= write_jobs_spec(arts@.take(0), *only_repo));
    }
    while i < arts.len()
        invariant
            i <= arts@.len(),
            write_job_views(ws@) == write_jobs_spec(arts@.take(i as int), *only_repo),
        decreases arts@.len() - i,
    {
        let a = &arts[i];
        let ghost old_ws = ws@;
        let mut pushed: bool = false;
        match only_repo {
            None => {
                let mut p = a.repo.clone();
                p.append("/");
                p.append(a.path.as_str());
                proof {
                    reveal_strlit("/");
                    assert("/"@ =~= seq!['/']);
                }
                ws.push(WriteJob { path: p, contents: clone_bytes(&a.contents), executable: a.executable });
                pushed = true;
            },
            Some(n) => {
                if a.repo == *n {
                    ws.push(
                        WriteJob {
                            path: a.path.clone(),
                            contents: clone_bytes(&a.contents),
                            executable: a.executable,
                        },
                    );
                    pushed = true;
                }
            },
        }
        proof {
            let t1 = arts@.take(i + 1);
            assert(t1.drop_last() =~= arts@.take(i as int));
            assert(t1.last() == arts@[i as int]);
            if pushed {
                assert(ws@ == old_ws.push(ws@.last()));
                assert(write_job_views(ws@) =~= write_job_views(old_ws).push(
                    (ws@.last().path@, ws@.last().contents@, ws@.last().executable),
                ));
            }
            assert(write_job_views(ws@) =~= write_jobs_spec(arts@.take(i + 1), *only_repo));
        }
        i = i + 1;
    }
    proof {
        assert(arts@.take(arts@.len() as int) =~= arts@);
    }
    Ok(ws)
}

} // verus!
