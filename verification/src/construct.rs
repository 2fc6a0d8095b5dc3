//! What is generated from the `.proto` files of a crate when it is built:
//! where the files are looked for, which modules are declared for them, and
//! which files are listed beside them.

use crate::cors::texts;
use crate::text::{chars_of, same_text};
use vstd::prelude::*;

verus! {

/// Where `.proto` files are looked for.
#[derive(Debug, Copy, Clone)]
pub enum ProtoSources<'a> {
    /// The files of the node itself.
    Nano,
    /// The files of its cryptography.
    Crypto,
    /// The files that crates share.
    Common,
    /// The files of its database.
    Merkledb,
    /// The files in a directory.
    Path(&'a str),
}

/// The directories of the sources that have a name, as the environment of
/// the build gives them; one that it does not give is absent.
#[derive(Debug, Clone, PartialEq, Eq)]
pub struct ProtoDirs {
    pub nano: Option<String>,
    pub crypto: Option<String>,
    pub common: Option<String>,
    pub merkledb: Option<String>,
}

/// A source as a value of specifications.
pub enum SourceView {
    Nano,
    Crypto,
    Common,
    Merkledb,
    Path(Seq<char>),
}

impl<'a> View for ProtoSources<'a> {
    type V = SourceView;

    open spec fn view(&self) -> SourceView {
        match self {
            ProtoSources::Nano => SourceView::Nano,
            ProtoSources::Crypto => SourceView::Crypto,
            ProtoSources::Common => SourceView::Common,
            ProtoSources::Merkledb => SourceView::Merkledb,
            ProtoSources::Path(path) => SourceView::Path(path@),
        }
    }
}

impl ProtoDirs {
    /// The directory of a source: the one given for a source that has a
    /// name, and the path itself for a path.
    pub open spec fn dir(self, source: SourceView) -> Option<Seq<char>> {
        match source {
            SourceView::Nano => match self.nano {
                Some(dir) => Some(dir@),
                None => None,
            },
            SourceView::Crypto => match self.crypto {
                Some(dir) => Some(dir@),
                None => None,
            },
            SourceView::Common => match self.common {
                Some(dir) => Some(dir@),
                None => None,
            },
            SourceView::Merkledb => match self.merkledb {
                Some(dir) => Some(dir@),
                None => None,
            },
            SourceView::Path(path) => Some(path),
        }
    }

    /// Whether the directory of every source of a list is given.
    pub open spec fn gives_all(self, sources: Seq<SourceView>) -> bool {
        forall|i: int| 0 <= i < sources.len() ==> self.dir(sources[i]) is Some
    }
}

/// The sources of a list, as values of specifications.
pub open spec fn sources_view(sources: Seq<ProtoSources<'_>>) -> Seq<SourceView> {
    sources.map_values(|source: ProtoSources<'_>| source@)
}

impl<'a> ProtoSources<'a> {
    /// The variable of the environment that gives the directory of the
    /// source; a path needs none.
    pub open spec fn spec_variable(self) -> Option<Seq<char>> {
        match self {
            ProtoSources::Nano => Some("DEP_NANO_PROTOBUF_PROTOS"@),
            ProtoSources::Crypto => Some("DEP_NANO_PROTOBUF_CRYPTO_PROTOS"@),
            ProtoSources::Common => Some("DEP_NANO_PROTOBUF_COMMON_PROTOS"@),
            ProtoSources::Merkledb => Some("DEP_NANO_PROTOBUF_MERKLEDB_PROTOS"@),
            ProtoSources::Path(_) => None,
        }
    }

    /// The variable of the environment that gives the directory of the
    /// source; a path needs none.
    pub fn variable(&self) -> (name: Option<&'static str>)
        ensures
            match self.spec_variable() {
                Some(v) => name matches Some(n) && n@ == v,
                None => name is None,
            },
    {
        match self {
            ProtoSources::Nano => Some("DEP_NANO_PROTOBUF_PROTOS"),
            ProtoSources::Crypto => Some("DEP_NANO_PROTOBUF_CRYPTO_PROTOS"),
            ProtoSources::Common => Some("DEP_NANO_PROTOBUF_COMMON_PROTOS"),
            ProtoSources::Merkledb => Some("DEP_NANO_PROTOBUF_MERKLEDB_PROTOS"),
            ProtoSources::Path(_) => None,
        }
    }

    /// What is said where the environment does not give the directory of
    /// the source.
    pub fn missing_message(&self) -> (message: Option<&'static str>)
        ensures
            message is Some <==> self.spec_variable() is Some,
            message matches Some(m) ==> m@ == (match self@ {
                SourceView::Nano => "Failed to get nano protobuf path"@,
                SourceView::Crypto => "Failed to get nano crypto protobuf path"@,
                SourceView::Common => "Failed to get nano common protobuf path"@,
                _ => "Failed to get nano merkledb protobuf path"@,
            }),
    {
        match self {
            ProtoSources::Nano => Some("Failed to get nano protobuf path"),
            ProtoSources::Crypto => Some("Failed to get nano crypto protobuf path"),
            ProtoSources::Common => Some("Failed to get nano common protobuf path"),
            ProtoSources::Merkledb => Some("Failed to get nano merkledb protobuf path"),
            ProtoSources::Path(_) => None,
        }
    }

    /// Whether the directory of the source is given.
    pub fn is_given(&self, dirs: &ProtoDirs) -> (given: bool)
        ensures
            given == dirs.dir(self@) is Some,
    {
        match self {
            ProtoSources::Nano => dirs.nano.is_some(),
            ProtoSources::Crypto => dirs.crypto.is_some(),
            ProtoSources::Common => dirs.common.is_some(),
            ProtoSources::Merkledb => dirs.merkledb.is_some(),
            ProtoSources::Path(_) => true,
        }
    }

    /// The directory of the source.
    pub fn path(&self, dirs: &ProtoDirs) -> (path: String)
        requires
            dirs.dir(self@) is Some,
        ensures
            Some(path@) == dirs.dir(self@),
    {
        match self {
            ProtoSources::Nano => clone_given(&dirs.nano),
            ProtoSources::Crypto => clone_given(&dirs.crypto),
            ProtoSources::Common => clone_given(&dirs.common),
            ProtoSources::Merkledb => clone_given(&dirs.merkledb),
            ProtoSources::Path(path) => String::from_str(path),
        }
    }
}

fn clone_given(dir: &Option<String>) -> (path: String)
    requires
        dir is Some,
    ensures
        path@ == dir->Some_0@,
{
    match dir {
        Some(dir) => dir.clone(),
        None => String::new(),
    }
}

impl<'a> From<&'a str> for ProtoSources<'a> {
    fn from(path: &'a str) -> (source: Self) {
        ProtoSources::Path(path)
    }
}

impl<'a> vstd::std_specs::convert::FromSpecImpl<&'a str> for ProtoSources<'a> {
    open spec fn obeys_from_spec() -> bool {
        true
    }

    open spec fn from_spec(path: &'a str) -> Self {
        ProtoSources::Path(path)
    }
}

/// The path with every `separator` replaced by a slash: the form in which
/// `.proto` files name each other, whatever the separator of the system is.
pub open spec fn canonical_path(path: Seq<char>, separator: char) -> Seq<char> {
    path.map_values(
        |c: char|
            if c == separator {
                '/'
            } else {
                c
            },
    )
}

/// The path in the form in which `.proto` files name each other, given the
/// separator of paths on this system.
pub fn canonicalize_protobuf_path(path_str: &str, separator: char) -> (path: String)
    ensures
        path@ == canonical_path(path_str@, separator),
{
    let chars = chars_of(path_str);
    let mut path = String::new();
    let mut i: usize = 0;
    while i < chars.len()
        invariant
            i <= chars@.len(),
            chars@ == path_str@,
            path@ == canonical_path(path_str@, separator).take(i as int),
        decreases chars@.len() - i,
    {
        let c = if chars[i] == separator {
            '/'
        } else {
            chars[i]
        };
        path.push(c);
        assert(canonical_path(path_str@, separator).take(i + 1) == canonical_path(
            path_str@,
            separator,
        ).take(i as int).push(c));
        i = i + 1;
    }
    assert(canonical_path(path_str@, separator).take(i as int) == canonical_path(
        path_str@,
        separator,
    ));
    path
}

/// A `.proto` file that was found.
#[derive(Debug, Clone, PartialEq, Eq, Hash)]
pub struct ProtobufFile {
    /// Where it is.
    pub full_path: String,
    /// Its path from the directory in which it was looked for, with slashes.
    pub relative_path: String,
}

/// A file as a value of specifications: the full and the relative path.
pub open spec fn file_view(file: ProtobufFile) -> (Seq<char>, Seq<char>) {
    (file.full_path@, file.relative_path@)
}

/// The files of a list, as values of specifications.
pub open spec fn files_view(files: Seq<ProtobufFile>) -> Seq<(Seq<char>, Seq<char>)> {
    files.map_values(|file: ProtobufFile| file_view(file))
}

/// Whether a file of this name is a `.proto` file: the name ends with
/// `.proto`, and something stands before that.
pub open spec fn is_proto_name(name: Seq<char>) -> bool {
    name.len() > 6 && name.subrange(name.len() - 6, name.len() as int) == ".proto"@
}

/// The name of a `.proto` file without `.proto`.
pub open spec fn proto_stem(name: Seq<char>) -> Seq<char> {
    name.subrange(0, name.len() - 6)
}

/// The stem of a name, if it is the name of a `.proto` file.
pub fn proto_file_stem(name: &str) -> (stem: Option<String>)
    ensures
        stem is Some <==> is_proto_name(name@),
        stem matches Some(s) ==> s@ == proto_stem(name@),
{
    proof {
        reveal_strlit(".proto");
    }
    let chars = chars_of(name);
    let n = chars.len();
    if n > 6 && chars[n - 6] == '.' && chars[n - 5] == 'p' && chars[n - 4] == 'r' && chars[n - 3]
        == 'o' && chars[n - 2] == 't' && chars[n - 1] == 'o' {
        assert(name@.subrange(n - 6, n as int) == ".proto"@);
        Some(crate::text::text_of(&chars, 0, n - 6))
    } else {
        assert(!is_proto_name(name@)) by {
            if is_proto_name(name@) {
                let end = name@.subrange(n - 6, n as int);
                assert(end[0] == '.' && end[1] == 'p' && end[2] == 'r' && end[3] == 'o' && end[4]
                    == 't' && end[5] == 'o');
            }
        }
        None
    }
}

/// The module that is declared for a `.proto` file.
#[derive(Debug, Clone, PartialEq, Eq)]
pub struct ModDeclaration {
    /// The name of the module: that of the file, without `.proto`.
    pub name: String,
    /// Whether the module is there in tests only.
    pub test_only: bool,
}

/// The declaration of the module of a file with the given stem: a module of
/// that name, public, and for the stem `tests` there in tests only.
pub fn mod_declaration(stem: &str) -> (declaration: ModDeclaration)
    ensures
        declaration.name@ == stem@,
        declaration.test_only == (stem@ == "tests"@),
{
    ModDeclaration { name: String::from_str(stem), test_only: same_text(stem, "tests") }
}

/// The declarations of the modules of the files with the given stems, in
/// their order.
pub fn get_mod_files(stems: &Vec<String>) -> (declarations: Vec<ModDeclaration>)
    ensures
        declarations@.len() == stems@.len(),
        forall|i: int|
            0 <= i < stems@.len() ==> {
                &&& (#[trigger] declarations@[i]).name@ == stems@[i]@
                &&& declarations@[i].test_only == (stems@[i]@ == "tests"@)
            },
{
    let mut declarations: Vec<ModDeclaration> = Vec::new();
    let mut i: usize = 0;
    while i < stems.len()
        invariant
            i <= stems@.len(),
            declarations@.len() == i,
            forall|j: int|
                0 <= j < i ==> {
                    &&& (#[trigger] declarations@[j]).name@ == stems@[j]@
                    &&& declarations@[j].test_only == (stems@[j]@ == "tests"@)
                },
        decreases stems@.len() - i,
    {
        declarations.push(mod_declaration(stems[i].as_str()));
        i = i + 1;
    }
    declarations
}

/// Whether a file is among the files of a list.
pub fn contains_file(files: &Vec<ProtobufFile>, file: &ProtobufFile) -> (found: bool)
    ensures
        found == files_view(files@).contains(file_view(*file)),
{
    let mut i: usize = 0;
    while i < files.len()
        invariant
            i <= files@.len(),
            forall|j: int| 0 <= j < i ==> files_view(files@)[j] != file_view(*file),
        decreases files@.len() - i,
    {
        if same_text(files[i].full_path.as_str(), file.full_path.as_str()) && same_text(
            files[i].relative_path.as_str(),
            file.relative_path.as_str(),
        ) {
            assert(files_view(files@)[i as int] == file_view(*file));
            return true;
        }
        i = i + 1;
    }
    false
}

/// The files that are listed as included: those of `includes` that are not
/// among `proto_files`, each once.
pub fn included_only(proto_files: &Vec<ProtobufFile>, includes: &Vec<ProtobufFile>) -> (listed: Vec<
    ProtobufFile,
>)
    ensures
        files_view(listed@).no_duplicates(),
        forall|file: (Seq<char>, Seq<char>)|
            files_view(listed@).contains(file) <==> files_view(includes@).contains(file)
                && !files_view(proto_files@).contains(file),
{
    let mut listed: Vec<ProtobufFile> = Vec::new();
    let mut i: usize = 0;
    while i < includes.len()
        invariant
            i <= includes@.len(),
            files_view(listed@).no_duplicates(),
            forall|file: (Seq<char>, Seq<char>)|
                files_view(listed@).contains(file) <==> files_view(includes@).take(
                    i as int,
                ).contains(file) && !files_view(proto_files@).contains(file),
        decreases includes@.len() - i,
    {
        let ghost before = files_view(listed@);
        let ghost seen = files_view(includes@).take(i as int);
        let ghost now = files_view(includes@).take(i + 1);
        let ghost this = file_view(includes@[i as int]);
        proof {
            assert(now == seen.push(this));
            assert forall|file: (Seq<char>, Seq<char>)| now.contains(file) <==> seen.contains(file)
                || file == this by {
                if now.contains(file) {
                    let k = choose|k: int| 0 <= k < now.len() && now[k] == file;
                    if k < seen.len() {
                        assert(seen[k] == file);
                    }
                }
                if seen.contains(file) {
                    let k = choose|k: int| 0 <= k < seen.len() && seen[k] == file;
                    assert(now[k] == file);
                }
                if file == this {
                    assert(now[i as int] == file);
                }
            }
        }
        if !contains_file(proto_files, &includes[i]) && !contains_file(&listed, &includes[i]) {
            listed.push(
                ProtobufFile {
                    full_path: includes[i].full_path.clone(),
                    relative_path: includes[i].relative_path.clone(),
                },
            );
            proof {
                let after = files_view(listed@);
                assert(after == before.push(this));
                assert forall|file: (Seq<char>, Seq<char>)| after.contains(file)
                    <==> before.contains(file) || file == this by {
                    if after.contains(file) {
                        let k = choose|k: int| 0 <= k < after.len() && after[k] == file;
                        if k < before.len() {
                            assert(before[k] == file);
                        }
                    }
                    if before.contains(file) {
                        let k = choose|k: int| 0 <= k < before.len() && before[k] == file;
                        assert(after[k] == file);
                    }
                    if file == this {
                        assert(after[before.len() as int] == file);
                    }
                }
            }
        }
        i = i + 1;
    }
    assert(files_view(includes@).take(i as int) == files_view(includes@));
    listed
}

/// What is to be generated for a crate.
#[derive(Debug)]
pub struct ProtobufGenerator<'a> {
    includes: Vec<ProtoSources<'a>>,
    mod_name: &'a str,
    input_dir: &'a str,
    include_sources: bool,
}

/// The work of one generation: the directory whose files are compiled, the
/// directories in which the files they import are looked for, the name of
/// the file of modules, and whether the sources are listed in it.
#[derive(Debug, Clone, PartialEq, Eq)]
pub struct Generation {
    pub input_dir: String,
    pub includes: Vec<String>,
    pub mod_file_name: String,
    pub include_sources: bool,
}

/// The directories of the sources of a list, in their order.
pub open spec fn dirs_of(dirs: ProtoDirs, sources: Seq<SourceView>) -> Seq<Seq<char>> {
    sources.map_values(|source: SourceView| dirs.dir(source).unwrap())
}

impl<'a> ProtobufGenerator<'a> {
    /// The sources, in the order in which they were added.
    pub closed spec fn includes(self) -> Seq<SourceView> {
        sources_view(self.includes@)
    }

    /// The name of the file of modules.
    pub closed spec fn mod_name(self) -> Seq<char> {
        self.mod_name@
    }

    /// The directory whose files are compiled; empty while it is not set.
    pub closed spec fn input_dir(self) -> Seq<char> {
        self.input_dir@
    }

    /// Whether the sources are listed in the file of modules.
    pub closed spec fn include_sources(self) -> bool {
        self.include_sources
    }

    /// A generator for a file of modules of the given name: no sources yet,
    /// no directory to compile, and the sources listed.
    pub fn with_mod_name(mod_name: &'a str) -> (generator: Self)
        requires
            mod_name@.len() > 0,
        ensures
            generator.mod_name() == mod_name@,
            generator.input_dir().len() == 0,
            generator.includes().len() == 0,
            generator.include_sources(),
    {
        proof {
            reveal_strlit("");
        }
        ProtobufGenerator { includes: Vec::new(), input_dir: "", mod_name, include_sources: true }
    }

    /// Sets the directory whose files are compiled; it is a source as well.
    pub fn with_input_dir(self, path: &'a str) -> (generator: Self)
        requires
            self.input_dir().len() == 0,
        ensures
            generator.input_dir() == path@,
            generator.includes() == self.includes().push(SourceView::Path(path@)),
            generator.mod_name() == self.mod_name(),
            generator.include_sources() == self.include_sources(),
    {
        let mut generator = self;
        generator.input_dir = path;
        generator.push_source(ProtoSources::Path(path))
    }

    /// Adds a source behind those that are there.
    fn push_source(self, source: ProtoSources<'a>) -> (generator: Self)
        ensures
            generator.includes() == self.includes().push(source@),
            generator.input_dir() == self.input_dir(),
            generator.mod_name() == self.mod_name(),
            generator.include_sources() == self.include_sources(),
    {
        let mut generator = self;
        generator.includes.push(source);
        assert(sources_view(generator.includes@) == sources_view(self.includes@).push(source@));
        generator
    }

    /// Adds a directory as a source.
    pub fn add_path(self, path: &'a str) -> (generator: Self)
        ensures
            generator.includes() == self.includes().push(SourceView::Path(path@)),
            generator.input_dir() == self.input_dir(),
            generator.mod_name() == self.mod_name(),
            generator.include_sources() == self.include_sources(),
    {
        self.push_source(ProtoSources::Path(path))
    }

    /// Adds the files that crates share as a source.
    pub fn with_common(self) -> (generator: Self)
        ensures
            generator.includes() == self.includes().push(SourceView::Common),
            generator.input_dir() == self.input_dir(),
            generator.mod_name() == self.mod_name(),
            generator.include_sources() == self.include_sources(),
    {
        self.push_source(ProtoSources::Common)
    }

    /// Adds the files of the cryptography as a source.
    pub fn with_crypto(self) -> (generator: Self)
        ensures
            generator.includes() == self.includes().push(SourceView::Crypto),
            generator.input_dir() == self.input_dir(),
            generator.mod_name() == self.mod_name(),
            generator.include_sources() == self.include_sources(),
    {
        self.push_source(ProtoSources::Crypto)
    }

    /// Adds the files of the database as a source.
    pub fn with_merkledb(self) -> (generator: Self)
        ensures
            generator.includes() == self.includes().push(SourceView::Merkledb),
            generator.input_dir() == self.input_dir(),
            generator.mod_name() == self.mod_name(),
            generator.include_sources() == self.include_sources(),
    {
        self.push_source(ProtoSources::Merkledb)
    }

    /// Adds the files of the node as a source.
    pub fn with_nano(self) -> (generator: Self)
        ensures
            generator.includes() == self.includes().push(SourceView::Nano),
            generator.input_dir() == self.input_dir(),
            generator.mod_name() == self.mod_name(),
            generator.include_sources() == self.include_sources(),
    {
        self.push_source(ProtoSources::Nano)
    }

    /// Adds the sources of a list, in their order.
    pub fn with_includes(self, includes: &'a [ProtoSources<'a>]) -> (generator: Self)
        ensures
            generator.includes() == self.includes() + sources_view(includes@),
            generator.input_dir() == self.input_dir(),
            generator.mod_name() == self.mod_name(),
            generator.include_sources() == self.include_sources(),
    {
        let mut generator = self;
        let mut i: usize = 0;
        while i < includes.len()
            invariant
                i <= includes@.len(),
                generator.includes() == self.includes() + sources_view(includes@).take(i as int),
                generator.input_dir() == self.input_dir(),
                generator.mod_name() == self.mod_name(),
                generator.include_sources() == self.include_sources(),
            decreases includes@.len() - i,
        {
            assert(sources_view(includes@).take(i + 1) == sources_view(includes@).take(
                i as int,
            ).push(includes@[i as int]@));
            generator = generator.push_source(includes[i]);
            i = i + 1;
        }
        assert(sources_view(includes@).take(i as int) == sources_view(includes@));
        generator
    }

    /// Leaves the sources out of the file of modules.
    pub fn without_sources(self) -> (generator: Self)
        ensures
            !generator.include_sources(),
            generator.includes() == self.includes(),
            generator.input_dir() == self.input_dir(),
            generator.mod_name() == self.mod_name(),
    {
        let mut generator = self;
        generator.include_sources = false;
        generator
    }

    /// Whether the generator can generate: the directory to compile is set,
    /// and there is a source.
    pub fn is_complete(&self) -> (complete: bool)
        ensures
            complete == (self.input_dir().len() > 0 && self.includes().len() > 0),
    {
        self.input_dir.unicode_len() > 0 && self.includes.len() > 0
    }

    /// Whether the directory to compile is set.
    pub fn has_input_dir(&self) -> (set: bool)
        ensures
            set == (self.input_dir().len() > 0),
    {
        self.input_dir.unicode_len() > 0
    }

    /// The number of sources.
    pub fn sources(&self) -> (n: usize)
        ensures
            n == self.includes().len(),
    {
        self.includes.len()
    }

    /// The first source whose directory is not given, if there is one.
    pub fn missing(&self, dirs: &ProtoDirs) -> (source: Option<ProtoSources<'a>>)
        ensures
            source is None <==> dirs.gives_all(self.includes()),
            source matches Some(s) ==> exists|i: int|
                {
                    &&& 0 <= i < self.includes().len()
                    &&& self.includes()[i] == s@
                    &&& dirs.dir(s@) is None
                    &&& forall|j: int| 0 <= j < i ==> dirs.dir(self.includes()[j]) is Some
                },
    {
        let mut i: usize = 0;
        while i < self.includes.len()
            invariant
                i <= self.includes@.len(),
                forall|j: int| 0 <= j < i ==> dirs.dir(self.includes()[j]) is Some,
            decreases self.includes@.len() - i,
        {
            if !self.includes[i].is_given(dirs) {
                assert(self.includes()[i as int] == self.includes@[i as int]@);
                return Some(self.includes[i]);
            }
            i = i + 1;
        }
        None
    }

    /// Whether the directory of every source is given.
    pub fn is_given(&self, dirs: &ProtoDirs) -> (given: bool)
        ensures
            given == dirs.gives_all(self.includes()),
    {
        self.missing(dirs).is_none()
    }

    /// The work to do: the directories of the sources in their order, and
    /// behind them the directory to compile once more.
    pub fn generate(self, dirs: &ProtoDirs) -> (generation: Generation)
        requires
            self.input_dir().len() > 0,
            self.includes().len() > 0,
            dirs.gives_all(self.includes()),
        ensures
            generation.input_dir@ == self.input_dir(),
            texts(generation.includes@) == dirs_of(*dirs, self.includes()).push(self.input_dir()),
            generation.mod_file_name@ == self.mod_name(),
            generation.include_sources == self.include_sources(),
    {
        let mut includes: Vec<String> = Vec::new();
        let mut i: usize = 0;
        while i < self.includes.len()
            invariant
                i <= self.includes@.len(),
                dirs.gives_all(self.includes()),
                texts(includes@) == dirs_of(*dirs, self.includes()).take(i as int),
            decreases self.includes@.len() - i,
        {
            let ghost before = texts(includes@);
            assert(dirs.dir(self.includes()[i as int]) is Some);
            let path = self.includes[i].path(dirs);
            includes.push(path);
            assert(texts(includes@) == before.push(path@));
            assert(dirs_of(*dirs, self.includes()).take(i + 1) == dirs_of(
                *dirs,
                self.includes(),
            ).take(i as int).push(path@));
            i = i + 1;
        }
        assert(dirs_of(*dirs, self.includes()).take(i as int) == dirs_of(*dirs, self.includes()));
        let ghost before = texts(includes@);
        includes.push(String::from_str(self.input_dir));
        assert(texts(includes@) == before.push(self.input_dir@));
        Generation {
            input_dir: String::from_str(self.input_dir),
            includes,
            mod_file_name: String::from_str(self.mod_name),
            include_sources: self.include_sources,
        }
    }
}

} // verus!
