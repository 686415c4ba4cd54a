//! Layered configuration: a built-in document, optional documents of rising
//! precedence and the overrides of one invocation are resolved into one
//! record in which every setting is decided.

pub use crate::commit_types::CommitType;
use crate::commit_types::{
    build_registry, built, collected, default_commit_types, default_types, keys_unique,
    registry_entries, views_of, CommitTypeView,
};
use indexmap::IndexMap;
use std::path::PathBuf;
use vstd::prelude::*;

verus! {

#[verifier::external_type_specification]
#[verifier::external_body]
pub struct ExPathBuf(PathBuf);

/// The settings of one configuration document. A setting that the document
/// does not declare is `None`; a list of commit types that it does not
/// declare is empty.
#[derive(Clone, Debug)]
pub struct ConfigDocument {
    pub autocomplete: Option<bool>,
    pub breaking_changes: Option<bool>,
    pub commit_types: Vec<CommitType>,
    pub emoji: Option<bool>,
    pub issues: Option<bool>,
    pub sign: Option<bool>,
}

/// A configuration document as plain values.
pub struct DocumentView {
    pub autocomplete: Option<bool>,
    pub breaking_changes: Option<bool>,
    pub commit_types: Seq<CommitTypeView>,
    pub emoji: Option<bool>,
    pub issues: Option<bool>,
    pub sign: Option<bool>,
}

impl View for ConfigDocument {
    type V = DocumentView;

    open spec fn view(&self) -> DocumentView {
        DocumentView {
            autocomplete: self.autocomplete,
            breaking_changes: self.breaking_changes,
            commit_types: views_of(self.commit_types@),
            emoji: self.emoji,
            issues: self.issues,
            sign: self.sign,
        }
    }
}

/// What was found at one place where a configuration document may lie.
#[derive(Clone, Debug)]
pub enum ConfigSource {
    /// There is no document. This is no error.
    Missing,
    /// There is a document that could not be read as one; the text says why.
    Malformed(String),
    /// The document.
    Document(ConfigDocument),
}

/// The overrides of one invocation, and the places it names.
#[derive(Debug)]
pub struct ConfigArgs {
    pub path: Option<PathBuf>,
    pub autocomplete: Option<bool>,
    pub breaking_changes: Option<bool>,
    pub emoji: Option<bool>,
    pub issues: Option<bool>,
    pub sign: Option<bool>,
    pub _user_config_path: Option<PathBuf>,
    pub _current_dir: Option<PathBuf>,
}

impl Default for ConfigArgs {
    fn default() -> (args: ConfigArgs)
        ensures
            args.path is None,
            args.autocomplete is None,
            args.breaking_changes is None,
            args.emoji is None,
            args.issues is None,
            args.sign is None,
            args._user_config_path is None,
            args._current_dir is None,
    {
        ConfigArgs {
            path: None,
            autocomplete: None,
            breaking_changes: None,
            emoji: None,
            issues: None,
            sign: None,
            _user_config_path: None,
            _current_dir: None,
        }
    }
}

/// The resolved configuration. No setting is left undecided.
#[derive(Debug)]
pub struct Config {
    pub autocomplete: bool,
    pub breaking_changes: bool,
    pub commit_types: IndexMap<String, CommitType>,
    pub emoji: bool,
    pub issues: bool,
    pub sign: bool,
    pub workdir: PathBuf,
}

/// Why no configuration could be resolved.
#[derive(Debug, PartialEq, Eq)]
pub enum ConfigError {
    /// The working directory could not be determined.
    WorkingDirectory,
    /// The source at this position, counted from zero in the order of
    /// precedence, is malformed. The text is the one that the source
    /// carries.
    Malformed { source: usize, message: String },
}

/// The settings that a document may declare.
pub enum Setting {
    Autocomplete,
    BreakingChanges,
    Emoji,
    Issues,
    Sign,
}

/// One layer of the resolution: a document, or nothing where a source is
/// missing.
pub type Layer = Option<DocumentView>;

/// What a layer declares for a setting.
pub open spec fn declared(layer: Layer, setting: Setting) -> Option<bool> {
    match layer {
        None => None,
        Some(document) => match setting {
            Setting::Autocomplete => document.autocomplete,
            Setting::BreakingChanges => document.breaking_changes,
            Setting::Emoji => document.emoji,
            Setting::Issues => document.issues,
            Setting::Sign => document.sign,
        },
    }
}

/// The commit types that a layer declares; none where it has no document.
pub open spec fn declared_types(layer: Layer) -> Seq<CommitTypeView> {
    match layer {
        None => Seq::empty(),
        Some(document) => document.commit_types,
    }
}

/// The value of a setting over layers of rising precedence: what the last
/// layer that declares it says.
pub open spec fn last_declared(layers: Seq<Layer>, setting: Setting) -> Option<bool>
    decreases layers.len(),
{
    if layers.len() == 0 {
        None
    } else if declared(layers.last(), setting) is Some {
        declared(layers.last(), setting)
    } else {
        last_declared(layers.drop_last(), setting)
    }
}

/// The commit types over layers of rising precedence: the list of the last
/// layer that declares a list which is not empty.
pub open spec fn last_types(layers: Seq<Layer>) -> Seq<CommitTypeView>
    decreases layers.len(),
{
    if layers.len() == 0 {
        Seq::empty()
    } else if declared_types(layers.last()).len() > 0 {
        declared_types(layers.last())
    } else {
        last_types(layers.drop_last())
    }
}

/// The built-in document. It declares every setting and the built-in commit
/// types.
pub open spec fn default_document_view() -> DocumentView {
    DocumentView {
        autocomplete: Some(false),
        breaking_changes: Some(true),
        commit_types: default_types(),
        emoji: Some(false),
        issues: Some(true),
        sign: Some(false),
    }
}

/// The settings that an invocation overrides, as a document. It declares no
/// commit types. The places that the arguments name are no settings and
/// stand outside it: `_current_dir` decides the working directory, `path`
/// and `_user_config_path` say where sources are looked for.
pub open spec fn overrides_view(args: ConfigArgs) -> DocumentView {
    DocumentView {
        autocomplete: args.autocomplete,
        breaking_changes: args.breaking_changes,
        commit_types: Seq::empty(),
        emoji: args.emoji,
        issues: args.issues,
        sign: args.sign,
    }
}

/// The layer that a source contributes.
pub open spec fn layer_of(source: ConfigSource) -> Layer {
    match source {
        ConfigSource::Document(document) => Some(document@),
        _ => None,
    }
}

/// The layers of the sources, in their order.
pub open spec fn source_layers(sources: Seq<ConfigSource>) -> Seq<Layer> {
    Seq::new(sources.len(), |i: int| layer_of(sources[i]))
}

/// All layers of a resolution in rising precedence: the built-in document,
/// the sources, the overrides.
pub open spec fn layers_of(sources: Seq<ConfigSource>, overrides: ConfigArgs) -> Seq<Layer> {
    (seq![Some(default_document_view())] + source_layers(sources)).push(
        Some(overrides_view(overrides)),
    )
}

/// The resolved value of a setting. The built-in document declares every
/// setting, so the layers of a resolution always decide it.
pub open spec fn resolved(layers: Seq<Layer>, setting: Setting) -> bool {
    match last_declared(layers, setting) {
        Some(value) => value,
        None => false,
    }
}

/// The position of the first malformed source, if there is one.
pub open spec fn first_malformed(sources: Seq<ConfigSource>) -> Option<int>
    decreases sources.len(),
{
    if sources.len() == 0 {
        None
    } else {
        match first_malformed(sources.drop_last()) {
            Some(i) => Some(i),
            None => if sources.last() is Malformed {
                Some(sources.len() - 1)
            } else {
                None
            },
        }
    }
}

/// The configuration is the resolution of these sources and overrides in
/// this working directory.
pub open spec fn resolves(
    config: Config,
    sources: Seq<ConfigSource>,
    overrides: ConfigArgs,
    workdir: PathBuf,
) -> bool {
    let layers = layers_of(sources, overrides);
    &&& config.autocomplete == resolved(layers, Setting::Autocomplete)
    &&& config.breaking_changes == resolved(layers, Setting::BreakingChanges)
    &&& config.emoji == resolved(layers, Setting::Emoji)
    &&& config.issues == resolved(layers, Setting::Issues)
    &&& config.sign == resolved(layers, Setting::Sign)
    &&& registry_entries(config.commit_types) == built(
        default_types(),
        last_types(source_layers(sources)),
    )
    &&& config.workdir == workdir
}

/// The registry of a resolution is that of the commit types of the last
/// layer, of all layers, that declares any: the built-in document is the
/// lowest layer and the overrides, which declare none, the highest.
pub proof fn lemma_types_of_all_layers(sources: Seq<ConfigSource>, overrides: ConfigArgs)
    ensures
        built(default_types(), last_types(source_layers(sources))) == collected(
            last_types(layers_of(sources, overrides)),
        ),
{
    let base: Seq<Layer> = seq![Some(default_document_view())];
    let layers = layers_of(sources, overrides);
    assert(layers.drop_last() =~= base + source_layers(sources));
    assert(layers.last() == Some(overrides_view(overrides)));
    lemma_types_above_base(source_layers(sources));
}

/// Above the built-in document, the last list that is declared is the one
/// of the layers where they declare any, and the built-in list otherwise.
proof fn lemma_types_above_base(above: Seq<Layer>)
    ensures
        last_types(seq![Some(default_document_view())] + above) == if last_types(above).len()
            > 0 {
            last_types(above)
        } else {
            default_types()
        },
    decreases above.len(),
{
    let base: Seq<Layer> = seq![Some(default_document_view())];
    assert(default_types().len() == 11);
    if above.len() == 0 {
        assert(base + above =~= base);
        assert(base.drop_last() =~= Seq::<Layer>::empty());
    } else {
        assert((base + above).last() == above.last());
        assert((base + above).drop_last() =~= base + above.drop_last());
        lemma_types_above_base(above.drop_last());
    }
}

/// A layer that declares a setting, and after which no layer declares it,
/// decides the setting, whatever the layers before it say.
pub proof fn lemma_later_source_overrides(layers: Seq<Layer>, setting: Setting, at: int)
    requires
        0 <= at < layers.len(),
        declared(layers[at], setting) is Some,
        forall|j: int| at < j < layers.len() ==> declared(#[trigger] layers[j], setting) is None,
    ensures
        last_declared(layers, setting) == declared(layers[at], setting),
    decreases layers.len(),
{
    if at < layers.len() - 1 {
        let front = layers.drop_last();
        assert(declared(layers[layers.len() - 1], setting) is None);
        assert(front[at] == layers[at]);
        assert forall|j: int| at < j < front.len() implies declared(
            #[trigger] front[j],
            setting,
        ) is None by {
            assert(front[j] == layers[j]);
        }
        lemma_later_source_overrides(front, setting, at);
    }
}

/// A layer that does not declare a setting can be taken out without
/// changing the setting's value.
pub proof fn lemma_omitting_source_changes_nothing(layers: Seq<Layer>, setting: Setting, at: int)
    requires
        0 <= at < layers.len(),
        declared(layers[at], setting) is None,
    ensures
        last_declared(layers.remove(at), setting) == last_declared(layers, setting),
    decreases layers.len(),
{
    let shorter = layers.remove(at);
    if at == layers.len() - 1 {
        assert(shorter =~= layers.drop_last());
    } else {
        assert(shorter.last() == layers.last());
        assert(shorter.drop_last() =~= layers.drop_last().remove(at));
        assert(layers.drop_last()[at] == layers[at]);
        lemma_omitting_source_changes_nothing(layers.drop_last(), setting, at);
    }
}

/// Two stacks of layers that agree from some layer on, where that layer
/// declares a setting, resolve the setting alike.
pub proof fn lemma_earlier_sources_are_overridden(
    earlier: Seq<Layer>,
    other: Seq<Layer>,
    later: Seq<Layer>,
    setting: Setting,
)
    requires
        later.len() > 0,
        declared(later[0], setting) is Some,
    ensures
        last_declared(earlier + later, setting) == last_declared(other + later, setting),
    decreases later.len(),
{
    let a = earlier + later;
    let b = other + later;
    assert(a.last() == later.last() && b.last() == later.last());
    if declared(later.last(), setting) is None {
        assert(later.len() > 1);
        assert(a.drop_last() =~= earlier + later.drop_last());
        assert(b.drop_last() =~= other + later.drop_last());
        assert(later.drop_last()[0] == later[0]);
        lemma_earlier_sources_are_overridden(earlier, other, later.drop_last(), setting);
    }
}

/// The built-in settings and commit types as a document.
pub fn default_document() -> (document: ConfigDocument)
    ensures
        document@ == default_document_view(),
{
    ConfigDocument {
        autocomplete: Some(false),
        breaking_changes: Some(true),
        commit_types: default_commit_types(),
        emoji: Some(false),
        issues: Some(true),
        sign: Some(false),
    }
}

fn pick(current: bool, layer: Option<bool>) -> (value: bool)
    ensures
        value == match layer {
            Some(v) => v,
            None => current,
        },
{
    match layer {
        Some(v) => v,
        None => current,
    }
}

/// Resolves the sources, given in rising precedence, and the overrides of
/// the invocation. The built-in document lies below the first source and
/// the overrides lie above the last. Each setting takes the value of the
/// last layer that declares it; the commit types are those of the last
/// layer that declares any, made into a registry. A malformed source is an
/// error, a missing one is not.
pub fn resolve(sources: &Vec<ConfigSource>, overrides: &ConfigArgs, workdir: PathBuf) -> (result:
    Result<Config, ConfigError>)
    ensures
        match result {
            Ok(config) => first_malformed(sources@) is None && resolves(
                config,
                sources@,
                *overrides,
                workdir,
            ) && keys_unique(registry_entries(config.commit_types)),
            Err(ConfigError::Malformed { source, message }) => first_malformed(sources@) == Some(
                source as int,
            ) && sources@[source as int] == ConfigSource::Malformed(message),
            Err(ConfigError::WorkingDirectory) => false,
        },
{
    let mut autocomplete = false;
    let mut breaking_changes = true;
    let mut emoji = false;
    let mut issues = true;
    let mut sign = false;
    let mut chosen: Option<usize> = None;
    let ghost base: Seq<Layer> = seq![Some(default_document_view())];
    proof {
        assert(base.drop_last() =~= Seq::<Layer>::empty());
        assert(base + source_layers(sources@).subrange(0, 0) =~= base);
        assert(source_layers(sources@).subrange(0, 0) =~= Seq::<Layer>::empty());
    }
    let mut i: usize = 0;
    while i < sources.len()
        invariant
            i <= sources.len(),
            base == seq![Some(default_document_view())],
            first_malformed(sources@.subrange(0, i as int)) is None,
            ({
                let above = source_layers(sources@).subrange(0, i as int);
                let layers = base + above;
                &&& last_declared(layers, Setting::Autocomplete) == Some(autocomplete)
                &&& last_declared(layers, Setting::BreakingChanges) == Some(breaking_changes)
                &&& last_declared(layers, Setting::Emoji) == Some(emoji)
                &&& last_declared(layers, Setting::Issues) == Some(issues)
                &&& last_declared(layers, Setting::Sign) == Some(sign)
                &&& match chosen {
                    Some(k) => k < i && last_types(above) == declared_types(
                        layer_of(sources@[k as int]),
                    ) && last_types(above).len() > 0 && sources@[k as int] is Document,
                    None => last_types(above).len() == 0,
                }
            }),
        decreases sources.len() - i,
    {
        proof {
            let above = source_layers(sources@).subrange(0, i as int);
            let next = source_layers(sources@).subrange(0, i + 1);
            assert(next.drop_last() =~= above);
            assert(next.last() == layer_of(sources@[i as int]));
            assert((base + next).drop_last() =~= base + above);
            assert((base + next).last() == layer_of(sources@[i as int]));
            assert(sources@.subrange(0, i + 1).drop_last() =~= sources@.subrange(0, i as int));
            assert(sources@.subrange(0, i + 1).last() == sources@[i as int]);
        }
        match &sources[i] {
            ConfigSource::Missing => {},
            ConfigSource::Malformed(message) => {
                proof {
                    lemma_first_malformed_prefix(sources@, i + 1);
                }
                return Err(ConfigError::Malformed { source: i, message: message.clone() });
            },
            ConfigSource::Document(document) => {
                autocomplete = pick(autocomplete, document.autocomplete);
                breaking_changes = pick(breaking_changes, document.breaking_changes);
                emoji = pick(emoji, document.emoji);
                issues = pick(issues, document.issues);
                sign = pick(sign, document.sign);
                if document.commit_types.len() > 0 {
                    chosen = Some(i);
                }
            },
        }
        i += 1;
    }
    proof {
        assert(sources@.subrange(0, sources.len() as int) =~= sources@);
        assert(source_layers(sources@).subrange(0, sources.len() as int) =~= source_layers(
            sources@,
        ));
        let below = base + source_layers(sources@);
        let layers = layers_of(sources@, *overrides);
        assert(layers.drop_last() =~= below);
        assert(layers.last() == Some(overrides_view(*overrides)));
    }
    let defaults = default_commit_types();
    let none: Vec<CommitType> = Vec::new();
    let declared: &Vec<CommitType> = match chosen {
        Some(k) => match &sources[k] {
            ConfigSource::Document(document) => &document.commit_types,
            _ => &none,
        },
        None => &none,
    };
    assert(views_of(declared@) =~= last_types(source_layers(sources@)));
    let commit_types = build_registry(&defaults, declared);
    Ok(
        Config {
            autocomplete: pick(autocomplete, overrides.autocomplete),
            breaking_changes: pick(breaking_changes, overrides.breaking_changes),
            commit_types,
            emoji: pick(emoji, overrides.emoji),
            issues: pick(issues, overrides.issues),
            sign: pick(sign, overrides.sign),
            workdir,
        },
    )
}

/// The first malformed source of a list is the first malformed source of
/// every prefix that reaches it.
proof fn lemma_first_malformed_prefix(sources: Seq<ConfigSource>, upto: int)
    requires
        0 < upto <= sources.len(),
        first_malformed(sources.subrange(0, upto - 1)) is None,
        sources[upto - 1] is Malformed,
    ensures
        first_malformed(sources) == Some(upto - 1),
    decreases sources.len(),
{
    if upto == sources.len() {
        assert(sources.drop_last() =~= sources.subrange(0, upto - 1));
    } else {
        assert(sources.drop_last().subrange(0, upto - 1) =~= sources.subrange(0, upto - 1));
        lemma_first_malformed_prefix(sources.drop_last(), upto);
    }
}

impl Config {
    /// Resolves the configuration of one invocation. `ambient_dir` is the
    /// directory in which the tool was started, `None` where it could not
    /// be determined. The working directory is the one that the arguments
    /// name, or else the ambient one; where there is neither, the working
    /// directory is unknown, which is an error and comes before any error
    /// of a source. Without arguments nothing is overridden.
    pub fn new(args: Option<ConfigArgs>, ambient_dir: Option<PathBuf>, sources: Vec<ConfigSource>) -> (result:
        Result<Config, ConfigError>)
        ensures
            working_directory(invocation(args), ambient_dir) is None <==> result == Err::<
                Config,
                ConfigError,
            >(ConfigError::WorkingDirectory),
            working_directory(invocation(args), ambient_dir) is Some ==> ({
                let overrides = invocation(args);
                match result {
                    Ok(config) => first_malformed(sources@) is None && resolves(
                        config,
                        sources@,
                        overrides,
                        working_directory(overrides, ambient_dir)->0,
                    ) && keys_unique(registry_entries(config.commit_types)),
                    Err(ConfigError::Malformed { source, message }) => first_malformed(sources@)
                        == Some(source as int) && sources@[source as int]
                        == ConfigSource::Malformed(message),
                    Err(ConfigError::WorkingDirectory) => false,
                }
            }),
    {
        let mut overrides = match args {
            Some(given) => given,
            None => ConfigArgs::default(),
        };
        let ghost seen = overrides;
        let workdir = match overrides._current_dir.take() {
            Some(dir) => dir,
            None => match ambient_dir {
                Some(dir) => dir,
                None => {
                    return Err(ConfigError::WorkingDirectory);
                },
            },
        };
        resolve_in(&sources, overrides, workdir, Ghost(seen))
    }
}

/// The overrides that optional arguments stand for.
pub open spec fn invocation(args: Option<ConfigArgs>) -> ConfigArgs {
    match args {
        Some(given) => given,
        None => ConfigArgs {
            path: None,
            autocomplete: None,
            breaking_changes: None,
            emoji: None,
            issues: None,
            sign: None,
            _user_config_path: None,
            _current_dir: None,
        },
    }
}

/// The working directory of an invocation: the one that the arguments
/// name, or else the ambient one.
pub open spec fn working_directory(overrides: ConfigArgs, ambient: Option<PathBuf>) -> Option<
    PathBuf,
> {
    match overrides._current_dir {
        Some(dir) => Some(dir),
        None => ambient,
    }
}

fn resolve_in(
    sources: &Vec<ConfigSource>,
    overrides: ConfigArgs,
    workdir: PathBuf,
    Ghost(seen): Ghost<ConfigArgs>,
) -> (result: Result<Config, ConfigError>)
    requires
        overrides_view(overrides) == overrides_view(seen),
    ensures
        match result {
            Ok(config) => first_malformed(sources@) is None && resolves(
                config,
                sources@,
                seen,
                workdir,
            ) && keys_unique(registry_entries(config.commit_types)),
            Err(ConfigError::Malformed { source, message }) => first_malformed(sources@) == Some(
                source as int,
            ) && sources@[source as int] == ConfigSource::Malformed(message),
            Err(ConfigError::WorkingDirectory) => false,
        },
{
    let result = resolve(sources, &overrides, workdir);
    proof {
        assert(layers_of(sources@, overrides) =~= layers_of(sources@, seen));
    }
    result
}

} // verus!
