use vstd::prelude::*;

use crate::deps::{Dependencies, DepsView};
use crate::diagnostics::{Diagnostic, fatal_batch, recoverable_errors};
use crate::modules::{
    ClassMapping,
    ClassNameView,
    CssClassName,
    EntryView,
    keys_unique,
    mapping_of,
    records_view,
};
use crate::naming::{CssModuleTransformConfig, FileName};
use crate::pattern::{
    CssModulesConfig,
    PatternError,
    PatternErrorView,
    compile_pattern,
    result_view,
};

verus! {

/// Options of a transform run.
#[derive(Debug)]
pub struct TransformOptions {
    pub filename: Option<String>,
    pub source_map: bool,
    pub css_modules: Option<CssModulesConfig>,
    pub minify: bool,
    pub analyze_dependencies: bool,
}

/// Options of a minify run.
#[derive(Debug)]
pub struct MinifyOptions {
    pub filename: Option<String>,
    pub source_map: bool,
}

/// A step of the work that follows a successful parse.
#[derive(Debug, Clone, Copy, PartialEq, Eq, Structural)]
pub enum Phase {
    /// Collect the imports and locations the stylesheet refers to.
    Analyze,
    /// Scope the class and id names to the file.
    Rename,
    /// Rewrite modern syntax for older consumers.
    Downlevel,
    /// Shrink the tree.
    Minify,
    /// Print the tree, and the source map if asked for.
    Emit,
}

/// Where a run stands.
#[derive(Debug, Clone, Copy, PartialEq, Eq, Structural)]
pub enum Stage {
    Parsing,
    /// Waiting for the phase at this index to be carried out.
    Running(usize),
    Done,
    Failed,
}

/// Why a run produced no output.
#[derive(Debug)]
pub enum TransformError {
    /// The class-name pattern does not compile.
    Pattern(PatternError),
    /// A real file name without a stem, where the pattern needs one.
    InvalidFileName,
    /// The parser produced no tree; its findings, the fatal one first.
    Parse { diagnostics: Vec<Diagnostic> },
    /// Printing the tree or its source map failed.
    Emit { message: String },
}

pub ghost enum TransformErrorView {
    Pattern(PatternErrorView),
    InvalidFileName,
    Parse(Seq<Diagnostic>),
    Emit(Seq<char>),
}

impl View for TransformError {
    type V = TransformErrorView;

    open spec fn view(&self) -> TransformErrorView {
        match self {
            TransformError::Pattern(e) => TransformErrorView::Pattern(e@),
            TransformError::InvalidFileName => TransformErrorView::InvalidFileName,
            TransformError::Parse { diagnostics } => TransformErrorView::Parse(diagnostics@),
            TransformError::Emit { message } => TransformErrorView::Emit(message@),
        }
    }
}

/// What the caller is to do next.
#[derive(Debug, PartialEq, Eq, Structural)]
pub enum Action {
    /// Parse the source, with class-name syntax on or off.
    Parse { css_modules: bool },
    /// Walk the tree with an `Analyzer`.
    Analyze,
    /// Rename the class and id names with `modules_config`.
    Rename,
    /// Run the compatibility rewrite.
    Downlevel,
    /// Run the minifier.
    Minify,
    /// Print the tree, minified or not, with or without a source map.
    Emit { minify: bool, source_map: bool },
    /// Nothing is left: take the result with `finish`.
    Finish,
}

/// What the caller reports after doing an action.
#[derive(Debug)]
pub enum Event {
    /// The parser produced no tree.
    ParseFailed { fatal: Diagnostic, recovered: Vec<Diagnostic> },
    /// The parser produced a tree, with these findings.
    Parsed { recovered: Vec<Diagnostic> },
    Analyzed(Dependencies),
    /// Each renamed name with its treatment, in the order they occurred.
    Renamed(Vec<(String, CssClassName)>),
    Downleveled,
    Minified,
    Emitted { code: String, map: Option<String> },
    EmitFailed { message: String },
}

pub ghost enum EventView {
    ParseFailed { fatal: Diagnostic, recovered: Seq<Diagnostic> },
    Parsed { recovered: Seq<Diagnostic> },
    Analyzed(DepsView),
    Renamed(Seq<(Seq<char>, ClassNameView)>),
    Downleveled,
    Minified,
    Emitted { code: Seq<char>, map: Option<Seq<char>> },
    EmitFailed { message: Seq<char> },
}

pub open spec fn opt_text(o: Option<String>) -> Option<Seq<char>> {
    match o {
        Some(s) => Some(s@),
        None => None,
    }
}

impl View for Event {
    type V = EventView;

    open spec fn view(&self) -> EventView {
        match self {
            Event::ParseFailed { fatal, recovered } => EventView::ParseFailed {
                fatal: *fatal,
                recovered: recovered@,
            },
            Event::Parsed { recovered } => EventView::Parsed { recovered: recovered@ },
            Event::Analyzed(d) => EventView::Analyzed(d@),
            Event::Renamed(r) => EventView::Renamed(records_view(r@)),
            Event::Downleveled => EventView::Downleveled,
            Event::Minified => EventView::Minified,
            Event::Emitted { code, map } => EventView::Emitted { code: code@, map: opt_text(*map) },
            Event::EmitFailed { message } => EventView::EmitFailed { message: message@ },
        }
    }
}

/// The result of a run that reached the end.
#[derive(Debug)]
pub struct TransformOutput {
    pub code: String,
    /// Present exactly where a source map was asked for.
    pub map: Option<String>,
    /// The parser's findings; absent where there were none.
    pub errors: Option<Vec<Diagnostic>>,
    /// Present exactly where the dependencies were asked for.
    pub deps: Option<Dependencies>,
    /// Present exactly where class names were scoped.
    pub modules_mapping: Option<ClassMapping>,
}

pub ghost struct OutputView {
    pub code: Seq<char>,
    pub map: Option<Seq<char>>,
    pub errors: Option<Seq<Diagnostic>>,
    pub deps: Option<DepsView>,
    pub modules_mapping: Option<Seq<EntryView>>,
}

pub open spec fn opt_diags(o: Option<Vec<Diagnostic>>) -> Option<Seq<Diagnostic>> {
    match o {
        Some(v) => Some(v@),
        None => None,
    }
}

pub open spec fn opt_deps(o: Option<Dependencies>) -> Option<DepsView> {
    match o {
        Some(d) => Some(d@),
        None => None,
    }
}

pub open spec fn opt_mapping(o: Option<ClassMapping>) -> Option<Seq<EntryView>> {
    match o {
        Some(m) => Some(m@),
        None => None,
    }
}

impl View for TransformOutput {
    type V = OutputView;

    open spec fn view(&self) -> OutputView {
        OutputView {
            code: self.code@,
            map: opt_text(self.map),
            errors: opt_diags(self.errors),
            deps: opt_deps(self.deps),
            modules_mapping: opt_mapping(self.modules_mapping),
        }
    }
}

/// The state of one run: the phases planned when it was set up, where it
/// stands, and what the phases so far have produced.
#[derive(Debug)]
pub struct Pipeline {
    phases: Vec<Phase>,
    css_modules: bool,
    emit_minified: bool,
    source_map: bool,
    modules: Option<CssModuleTransformConfig>,
    stage: Stage,
    errors: Option<Vec<Diagnostic>>,
    deps: Option<Dependencies>,
    mapping: Option<ClassMapping>,
    code: String,
    map: Option<String>,
    failure: Option<TransformError>,
}

pub ghost struct PipelineView {
    pub phases: Seq<Phase>,
    pub css_modules: bool,
    pub emit_minified: bool,
    pub source_map: bool,
    pub stage: Stage,
    pub errors: Option<Seq<Diagnostic>>,
    pub deps: Option<DepsView>,
    pub mapping: Option<Seq<EntryView>>,
    pub code: Seq<char>,
    pub map: Option<Seq<char>>,
    pub failure: Option<TransformErrorView>,
}

pub open spec fn opt_failure(o: Option<TransformError>) -> Option<TransformErrorView> {
    match o {
        Some(e) => Some(e@),
        None => None,
    }
}

impl View for Pipeline {
    type V = PipelineView;

    closed spec fn view(&self) -> PipelineView {
        PipelineView {
            phases: self.phases@,
            css_modules: self.css_modules,
            emit_minified: self.emit_minified,
            source_map: self.source_map,
            stage: self.stage,
            errors: opt_diags(self.errors),
            deps: opt_deps(self.deps),
            mapping: opt_mapping(self.mapping),
            code: self.code@,
            map: opt_text(self.map),
            failure: opt_failure(self.failure),
        }
    }
}

/// The phases of a transform run, in order. Compatibility rewriting and
/// printing always run; the others only where asked for.
pub open spec fn transform_phases(analyze: bool, rename: bool, minify: bool) -> Seq<Phase> {
    (if analyze {
        seq![Phase::Analyze]
    } else {
        Seq::empty()
    }) + (if rename {
        seq![Phase::Rename]
    } else {
        Seq::empty()
    }) + seq![Phase::Downlevel] + (if minify {
        seq![Phase::Minify]
    } else {
        Seq::empty()
    }) + seq![Phase::Emit]
}

/// The phases of a minify run.
pub open spec fn minify_phases() -> Seq<Phase> {
    seq![Phase::Minify, Phase::Emit]
}

/// A run that has not parsed yet.
pub open spec fn fresh(
    v: PipelineView,
    phases: Seq<Phase>,
    css_modules: bool,
    emit_minified: bool,
    source_map: bool,
) -> bool {
    &&& v.phases == phases
    &&& v.css_modules == css_modules
    &&& v.emit_minified == emit_minified
    &&& v.source_map == source_map
    &&& v.stage == Stage::Parsing
    &&& v.errors is None
    &&& v.deps is None
    &&& v.mapping is None
    &&& v.code == Seq::<char>::empty()
    &&& v.map is None
    &&& v.failure is None
}

/// The stage after the phase at index `i`.
pub open spec fn stage_after(phases: Seq<Phase>, i: int) -> Stage {
    if i + 1 < phases.len() {
        Stage::Running((i + 1) as usize)
    } else {
        Stage::Done
    }
}

/// The action a run at `v` asks for.
pub open spec fn action_of(v: PipelineView) -> Action {
    match v.stage {
        Stage::Parsing => Action::Parse { css_modules: v.css_modules },
        Stage::Running(i) => {
            if i < v.phases.len() {
                match v.phases[i as int] {
                    Phase::Analyze => Action::Analyze,
                    Phase::Rename => Action::Rename,
                    Phase::Downlevel => Action::Downlevel,
                    Phase::Minify => Action::Minify,
                    Phase::Emit => Action::Emit { minify: v.emit_minified, source_map: v.source_map },
                }
            } else {
                Action::Finish
            }
        },
        _ => Action::Finish,
    }
}

/// Whether `e` reports the action that a run at `v` asked for.
pub open spec fn accepts_spec(v: PipelineView, e: EventView) -> bool {
    match action_of(v) {
        Action::Parse { .. } => e is ParseFailed || e is Parsed,
        Action::Analyze => e is Analyzed,
        Action::Rename => e is Renamed,
        Action::Downlevel => e is Downleveled,
        Action::Minify => e is Minified,
        Action::Emit { .. } => e is Emitted || e is EmitFailed,
        Action::Finish => false,
    }
}

/// The state after a run at `v` took in the event `e` that it accepts.
pub open spec fn step_spec(v: PipelineView, e: EventView) -> PipelineView {
    match e {
        EventView::ParseFailed { fatal, recovered } => PipelineView {
            stage: Stage::Failed,
            failure: Some(TransformErrorView::Parse(seq![fatal] + recovered)),
            ..v
        },
        EventView::Parsed { recovered } => PipelineView {
            stage: Stage::Running(0),
            errors: if recovered.len() == 0 {
                None
            } else {
                Some(recovered)
            },
            ..v
        },
        EventView::Analyzed(d) => PipelineView {
            stage: stage_after(v.phases, v.stage->Running_0 as int),
            deps: Some(d),
            ..v
        },
        EventView::Renamed(records) => PipelineView {
            stage: stage_after(v.phases, v.stage->Running_0 as int),
            mapping: Some(mapping_of(records)),
            ..v
        },
        EventView::Emitted { code, map } => {
            if v.source_map && map is None {
                PipelineView {
                    stage: Stage::Failed,
                    failure: Some(TransformErrorView::Emit(missing_map_message())),
                    ..v
                }
            } else {
                PipelineView {
                    stage: stage_after(v.phases, v.stage->Running_0 as int),
                    code,
                    map: if v.source_map {
                        map
                    } else {
                        None
                    },
                    ..v
                }
            }
        },
        EventView::EmitFailed { message } => PipelineView {
            stage: Stage::Failed,
            failure: Some(TransformErrorView::Emit(message)),
            ..v
        },
        _ => PipelineView { stage: stage_after(v.phases, v.stage->Running_0 as int), ..v },
    }
}

/// The message of a run that asked for a source map and got none.
pub open spec fn missing_map_message() -> Seq<char> {
    seq![
        'n', 'o', ' ', 's', 'o', 'u', 'r', 'c', 'e', ' ', 'm', 'a', 'p', ' ', 'w', 'a', 's', ' ',
        'p', 'r', 'o', 'd', 'u', 'c', 'e', 'd'
    ]
}

/// What a finished run hands back.
pub open spec fn outcome_of(v: PipelineView) -> Result<OutputView, TransformErrorView> {
    if v.stage == Stage::Done {
        Ok(
            OutputView {
                code: v.code,
                map: v.map,
                errors: v.errors,
                deps: v.deps,
                modules_mapping: v.mapping,
            },
        )
    } else {
        Err(v.failure->0)
    }
}

pub open spec fn outcome_view(r: Result<TransformOutput, TransformError>) -> Result<
    OutputView,
    TransformErrorView,
> {
    match r {
        Ok(o) => Ok(o@),
        Err(e) => Err(e@),
    }
}

/// The state after a run at `v` took in `events` in turn; `None` where one of
/// them was not the report of the action asked for.
pub open spec fn run_spec(v: PipelineView, events: Seq<EventView>) -> Option<PipelineView>
    decreases events.len(),
{
    if events.len() == 0 {
        Some(v)
    } else if accepts_spec(v, events[0]) {
        run_spec(step_spec(v, events[0]), events.drop_first())
    } else {
        None
    }
}

proof fn lemma_run_cons(v: PipelineView, e: EventView, events: Seq<EventView>)
    requires
        accepts_spec(v, e),
    ensures
        run_spec(v, seq![e] + events) == run_spec(step_spec(v, e), events),
{
    let all = seq![e] + events;
    assert(all[0] == e);
    assert(all.drop_first() =~= events);
}

/// After the parse, the rest of a run keeps the parser's findings as they
/// were, and adds no dependencies or mapping for a phase it does not hold.
proof fn lemma_run_after_parse(v: PipelineView, events: Seq<EventView>)
    requires
        v.stage != Stage::Parsing,
        run_spec(v, events) is Some,
    ensures
        run_spec(v, events)->0.errors == v.errors,
        run_spec(v, events)->0.phases == v.phases,
        (!v.phases.contains(Phase::Analyze) && v.deps is None) ==> run_spec(v, events)->0.deps is None,
        (!v.phases.contains(Phase::Rename) && v.mapping is None) ==> run_spec(
            v,
            events,
        )->0.mapping is None,
    decreases events.len(),
{
    if events.len() > 0 {
        let e = events[0];
        let i = v.stage->Running_0 as int;
        assert(v.stage is Running);
        assert(0 <= i < v.phases.len());
        if v.phases[i] == Phase::Analyze {
            assert(v.phases.contains(Phase::Analyze));
        }
        if v.phases[i] == Phase::Rename {
            assert(v.phases.contains(Phase::Rename));
        }
        lemma_run_after_parse(step_spec(v, e), events.drop_first());
    }
}

/// A parse that produced no tree ends the run at once: the run asks for
/// nothing more and finishes with the parser's findings, the fatal one first,
/// which are never empty, and with no code.
pub proof fn lemma_fatal_parse(v: PipelineView, fatal: Diagnostic, recovered: Seq<Diagnostic>)
    requires
        v.stage == Stage::Parsing,
    ensures
        accepts_spec(v, EventView::ParseFailed { fatal, recovered }),
        action_of(step_spec(v, EventView::ParseFailed { fatal, recovered })) == Action::Finish,
        outcome_of(step_spec(v, EventView::ParseFailed { fatal, recovered })) == Err::<
            OutputView,
            TransformErrorView,
        >(TransformErrorView::Parse(seq![fatal] + recovered)),
        (seq![fatal] + recovered).len() > 0,
{
}

/// A parse that produced a tree along with findings does not stop the run,
/// and every run that then reaches the end outputs exactly those findings,
/// once each and in their order.
pub proof fn lemma_recoverable_kept(
    v: PipelineView,
    recovered: Seq<Diagnostic>,
    events: Seq<EventView>,
)
    requires
        v.stage == Stage::Parsing,
        recovered.len() > 0,
        run_spec(v, seq![EventView::Parsed { recovered }] + events) matches Some(w) && w.stage
            == Stage::Done,
    ensures
        step_spec(v, EventView::Parsed { recovered }).stage == Stage::Running(0),
        outcome_of(run_spec(v, seq![EventView::Parsed { recovered }] + events)->0) matches Ok(o)
            && o.errors == Some(recovered),
{
    let e = EventView::Parsed { recovered };
    lemma_run_cons(v, e, events);
    lemma_run_after_parse(step_spec(v, e), events);
}

/// Absence: a transform run asked for neither dependencies nor class-name
/// scoping, whose parse reported no findings, ends, where it ends with an
/// output, with no dependencies, no class mapping and no findings: each is
/// absent, not empty.
pub proof fn lemma_absence(
    v: PipelineView,
    minify: bool,
    source_map: bool,
    events: Seq<EventView>,
)
    requires
        fresh(v, transform_phases(false, false, minify), false, minify, source_map),
        run_spec(v, seq![EventView::Parsed { recovered: Seq::empty() }] + events) matches Some(w)
            && w.stage == Stage::Done,
    ensures
        outcome_of(run_spec(v, seq![EventView::Parsed { recovered: Seq::empty() }] + events)->0) matches Ok(o)
            && o.errors is None && o.deps is None && o.modules_mapping is None,
{
    let e = EventView::Parsed { recovered: Seq::empty() };
    let phases = transform_phases(false, false, minify);
    assert(!phases.contains(Phase::Analyze)) by {
        if minify {
            assert(phases =~= seq![Phase::Downlevel, Phase::Minify, Phase::Emit]);
        } else {
            assert(phases =~= seq![Phase::Downlevel, Phase::Emit]);
        }
    }
    assert(!phases.contains(Phase::Rename)) by {
        if minify {
            assert(phases =~= seq![Phase::Downlevel, Phase::Minify, Phase::Emit]);
        } else {
            assert(phases =~= seq![Phase::Downlevel, Phase::Emit]);
        }
    }
    lemma_run_cons(v, e, events);
    lemma_run_after_parse(step_spec(v, e), events);
}

impl Pipeline {
    /// Well-formed: the phases end with printing, the stage points into
    /// them, a failed run has its reason, and the map keys are unique.
    pub closed spec fn wf(&self) -> bool {
        &&& self.phases@.len() > 0
        &&& self.phases@.last() == Phase::Emit
        &&& (self.stage matches Stage::Running(i) ==> i < self.phases@.len())
        &&& (self.stage == Stage::Failed ==> self.failure is Some)
        &&& (self.mapping matches Some(m) ==> keys_unique(m@))
        &&& (self.phases@.contains(Phase::Rename) ==> self.modules is Some)
    }

    fn start(
        phases: Vec<Phase>,
        css_modules: bool,
        emit_minified: bool,
        source_map: bool,
        modules: Option<CssModuleTransformConfig>,
    ) -> (r: Pipeline)
        requires
            phases@.len() > 0,
            phases@.last() == Phase::Emit,
            phases@.contains(Phase::Rename) ==> modules is Some,
        ensures
            r.wf(),
            fresh(r@, phases@, css_modules, emit_minified, source_map),
            r.modules == modules,
    {
        Pipeline {
            phases,
            css_modules,
            emit_minified,
            source_map,
            modules,
            stage: Stage::Parsing,
            errors: None,
            deps: None,
            mapping: None,
            code: String::new(),
            map: None,
            failure: None,
        }
    }

    /// Sets up a transform run. The class-name pattern is compiled here,
    /// before any tree exists, so that a bad pattern fails the run at once.
    /// `file_name_hash` is the hash byte of the file name that `[hash]`
    /// stands for.
    pub fn transform(opts: TransformOptions, file_name_hash: u8) -> (r: Result<
        Pipeline,
        TransformError,
    >)
        requires
            opts.css_modules matches Some(c) ==> c.pattern@.len() <= usize::MAX / 4,
        ensures
            match r {
                Ok(p) => {
                    &&& p.wf()
                    &&& fresh(
                        p@,
                        transform_phases(
                            opts.analyze_dependencies,
                            opts.css_modules is Some,
                            opts.minify,
                        ),
                        opts.css_modules is Some,
                        opts.minify,
                        opts.source_map,
                    )
                    &&& (opts.css_modules matches Some(c) ==> compile_pattern(c.pattern@) is Ok)
                },
                Err(TransformError::Pattern(e)) => opts.css_modules matches Some(c)
                    && compile_pattern(c.pattern@) == Err::<
                    Seq<crate::pattern::SegmentView>,
                    PatternErrorView,
                >(e@),
                Err(TransformError::InvalidFileName) => opts.css_modules matches Some(c)
                    && compile_pattern(c.pattern@) is Ok && opts.filename is Some,
                Err(_) => false,
            },
    {
        let TransformOptions { filename, source_map, css_modules, minify, analyze_dependencies } =
            opts;
        let rename = css_modules.is_some();
        let modules = match css_modules {
            Some(config) => {
                let compiled = config.parse_pattern();
                proof {
                    assert(result_view(compiled) == compile_pattern(config.pattern@));
                }
                match compiled {
                    Err(e) => {
                        return Err(TransformError::Pattern(e));
                    },
                    Ok(segments) => {
                        let file_name = match filename {
                            Some(path) => FileName::Real(path),
                            None => FileName::Anon,
                        };
                        match CssModuleTransformConfig::new(&file_name, file_name_hash, segments) {
                            Some(c) => Some(c),
                            None => {
                                return Err(TransformError::InvalidFileName);
                            },
                        }
                    },
                }
            },
            None => None,
        };
        let mut phases: Vec<Phase> = Vec::new();
        if analyze_dependencies {
            phases.push(Phase::Analyze);
        }
        if rename {
            phases.push(Phase::Rename);
        }
        phases.push(Phase::Downlevel);
        if minify {
            phases.push(Phase::Minify);
        }
        phases.push(Phase::Emit);
        proof {
            assert(phases@ =~= transform_phases(analyze_dependencies, rename, minify));
            if phases@.contains(Phase::Rename) {
                let k = choose|k: int| 0 <= k < phases@.len() && phases@[k] == Phase::Rename;
                assert(rename);
            }
        }
        Ok(Pipeline::start(phases, rename, minify, source_map, modules))
    }

    /// Sets up a minify run: parse, minify, print minified.
    pub fn minify(opts: MinifyOptions) -> (r: Pipeline)
        ensures
            r.wf(),
            fresh(r@, minify_phases(), false, true, opts.source_map),
    {
        let mut phases: Vec<Phase> = Vec::new();
        phases.push(Phase::Minify);
        phases.push(Phase::Emit);
        proof {
            assert(phases@ =~= minify_phases());
        }
        Pipeline::start(phases, false, true, opts.source_map, None)
    }

    /// The action this run asks for next.
    pub fn next_action(&self) -> (r: Action)
        requires
            self.wf(),
        ensures
            r == action_of(self@),
    {
        match self.stage {
            Stage::Parsing => Action::Parse { css_modules: self.css_modules },
            Stage::Running(i) => match self.phases[i] {
                Phase::Analyze => Action::Analyze,
                Phase::Rename => Action::Rename,
                Phase::Downlevel => Action::Downlevel,
                Phase::Minify => Action::Minify,
                Phase::Emit => Action::Emit {
                    minify: self.emit_minified,
                    source_map: self.source_map,
                },
            },
            _ => Action::Finish,
        }
    }

    /// The name generator that the rename phase is to use.
    pub fn modules_config(&self) -> (r: Option<&CssModuleTransformConfig>)
        requires
            self.wf(),
        ensures
            self@.phases.contains(Phase::Rename) ==> r is Some,
    {
        self.modules.as_ref()
    }

    /// Whether `e` reports the action that this run asked for.
    pub fn accepts(&self, e: &Event) -> (r: bool)
        requires
            self.wf(),
        ensures
            r == accepts_spec(self@, e@),
    {
        match self.next_action() {
            Action::Parse { .. } => matches!(e, Event::ParseFailed { .. } | Event::Parsed { .. }),
            Action::Analyze => matches!(e, Event::Analyzed(_)),
            Action::Rename => matches!(e, Event::Renamed(_)),
            Action::Downlevel => matches!(e, Event::Downleveled),
            Action::Minify => matches!(e, Event::Minified),
            Action::Emit { .. } => matches!(e, Event::Emitted { .. } | Event::EmitFailed { .. }),
            Action::Finish => false,
        }
    }

    fn advance(&mut self)
        requires
            old(self).wf(),
            old(self).stage is Running,
        ensures
            final(self)@ == (PipelineView {
                stage: stage_after(old(self)@.phases, old(self)@.stage->Running_0 as int),
                ..old(self)@
            }),
            final(self).modules == old(self).modules,
            final(self).wf(),
    {
        if let Stage::Running(i) = self.stage {
            if i < self.phases.len() - 1 {
                self.stage = Stage::Running(i + 1);
            } else {
                self.stage = Stage::Done;
            }
        }
    }

    /// Takes in the report of the action this run asked for.
    pub fn step(&mut self, e: Event)
        requires
            old(self).wf(),
            accepts_spec(old(self)@, e@),
        ensures
            final(self).wf(),
            final(self)@ == step_spec(old(self)@, e@),
    {
        let ghost ev = e@;
        match e {
            Event::ParseFailed { fatal, recovered } => {
                let diagnostics = fatal_batch(fatal, recovered);
                self.failure = Some(TransformError::Parse { diagnostics });
                self.stage = Stage::Failed;
            },
            Event::Parsed { recovered } => {
                self.errors = recoverable_errors(recovered);
                self.stage = Stage::Running(0);
            },
            Event::Analyzed(d) => {
                self.deps = Some(d);
                self.advance();
            },
            Event::Renamed(records) => {
                self.mapping = Some(ClassMapping::from_records(records));
                self.advance();
            },
            Event::Downleveled => self.advance(),
            Event::Minified => self.advance(),
            Event::Emitted { code, map } => {
                if self.source_map && map.is_none() {
                    let message = String::from_str("no source map was produced");
                    proof {
                        reveal_strlit("no source map was produced");
                        assert(message@ =~= missing_map_message());
                    }
                    self.failure = Some(TransformError::Emit { message });
                    self.stage = Stage::Failed;
                } else {
                    self.code = code;
                    self.map = if self.source_map {
                        map
                    } else {
                        None
                    };
                    self.advance();
                }
            },
            Event::EmitFailed { message } => {
                self.failure = Some(TransformError::Emit { message });
                self.stage = Stage::Failed;
            },
        }
        proof {
            assert(self@ =~= step_spec(old(self)@, ev));
        }
    }

    /// Whether the run has ended, with an output or a failure.
    pub fn is_finished(&self) -> (r: bool)
        ensures
            r == (self@.stage == Stage::Done || self@.stage == Stage::Failed),
    {
        self.stage == Stage::Done || self.stage == Stage::Failed
    }

    /// The output of a run that reached the end, or why it failed.
    pub fn finish(self) -> (r: Result<TransformOutput, TransformError>)
        requires
            self.wf(),
            self@.stage == Stage::Done || self@.stage == Stage::Failed,
        ensures
            outcome_view(r) == outcome_of(self@),
    {
        let Pipeline { stage, code, map, errors, deps, mapping, failure, .. } = self;
        if stage == Stage::Done {
            Ok(TransformOutput { code, map, errors, deps, modules_mapping: mapping })
        } else {
            Err(failure.unwrap())
        }
    }
}

} // verus!
