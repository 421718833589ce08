use vstd::prelude::*;
use vstd::string::*;

use std::collections::HashSet;

verus! {

/// The two stages a shader program is linked from.
#[derive(Debug, Clone, Copy, PartialEq, Eq, Structural)]
pub enum ShaderStage {
    Vertex,
    Fragment,
}

/// File-name suffix under which a stage's source is stored.
pub open spec fn stage_suffix(stage: ShaderStage) -> Seq<char> {
    match stage {
        ShaderStage::Vertex => ".vert.glsl"@,
        ShaderStage::Fragment => ".frag.glsl"@,
    }
}

/// Name of the source text of one stage of program `name`:
/// `<name>.vert.glsl` or `<name>.frag.glsl`.
pub fn shader_key(name: &str, stage: ShaderStage) -> (r: String)
    ensures
        r@ == name@ + stage_suffix(stage),
{
    let base = name.to_owned();
    match stage {
        ShaderStage::Vertex => base.concat(".vert.glsl"),
        ShaderStage::Fragment => base.concat(".frag.glsl"),
    }
}

/// A shader source that a program needed and the table does not hold.
#[derive(Debug)]
pub enum ShaderError {
    MissingSource(String),
}

/// The source texts of both stages of one program.
#[derive(Debug)]
pub struct ProgramSources {
    pub vertex: String,
    pub fragment: String,
}

/// Source of `key` in a table of (name, source) entries; a later entry under
/// the same name replaces an earlier one.
pub open spec fn lookup_source(entries: Seq<(String, String)>, key: Seq<char>) -> Option<Seq<char>>
    decreases entries.len(),
{
    if entries.len() == 0 {
        None
    } else if entries.last().0@ == key {
        Some(entries.last().1@)
    } else {
        lookup_source(entries.drop_last(), key)
    }
}

/// Table of shader source texts, keyed by file name.
#[derive(Debug)]
pub struct ShaderLib {
    pub sources: Vec<(String, String)>,
}

impl ShaderLib {
    pub open spec fn source_of(&self, key: Seq<char>) -> Option<Seq<char>> {
        lookup_source(self.sources@, key)
    }

    pub fn new() -> (r: ShaderLib)
        ensures
            r.sources@.len() == 0,
    {
        ShaderLib { sources: Vec::new() }
    }

    /// Stores `source` under `key`, replacing what was stored under it.
    pub fn insert(&mut self, key: String, source: String)
        ensures
            final(self).sources@ == old(self).sources@.push((key, source)),
            final(self).source_of(key@) == Some(source@),
            forall|k: Seq<char>| k != key@ ==> final(self).source_of(k) == old(self).source_of(k),
    {
        self.sources.push((key, source));
        assert(self.sources@.drop_last() =~= old(self).sources@);
    }

    /// The source stored under `key`, if any.
    pub fn get(&self, key: &str) -> (r: Option<String>)
        ensures
            match r {
                Some(s) => self.source_of(key@) == Some(s@),
                None => self.source_of(key@) is None,
            },
    {
        let wanted = key.to_owned();
        let mut i: usize = self.sources.len();
        assert(self.sources@.take(i as int) =~= self.sources@);
        while i > 0
            invariant
                i <= self.sources@.len(),
                wanted@ == key@,
                lookup_source(self.sources@.take(i as int), key@) == self.source_of(key@),
            decreases i,
        {
            let ghost prefix = self.sources@.take(i as int);
            assert(prefix.drop_last() =~= self.sources@.take(i - 1));
            i = i - 1;
            if self.sources[i].0 == wanted {
                return Some(self.sources[i].1.clone());
            }
        }
        None
    }

    /// The source of one stage of program `name`.
    pub fn source(&self, name: &str, stage: ShaderStage) -> (r: Result<String, ShaderError>)
        ensures
            match r {
                Ok(s) => self.source_of(name@ + stage_suffix(stage)) == Some(s@),
                Err(ShaderError::MissingSource(k)) => k@ == name@ + stage_suffix(stage)
                    && self.source_of(k@) is None,
            },
    {
        let key = shader_key(name, stage);
        match self.get(key.as_str()) {
            Some(s) => Ok(s),
            None => Err(ShaderError::MissingSource(key)),
        }
    }

    /// Both sources of program `name`; the fragment stage is looked up first,
    /// so where both are missing the error names the fragment source.
    pub fn program_sources(&self, name: &str) -> (r: Result<ProgramSources, ShaderError>)
        ensures
            match r {
                Ok(p) => self.source_of(name@ + stage_suffix(ShaderStage::Fragment)) == Some(
                    p.fragment@,
                ) && self.source_of(name@ + stage_suffix(ShaderStage::Vertex)) == Some(p.vertex@),
                Err(ShaderError::MissingSource(k)) => {
                    &&& self.source_of(k@) is None
                    &&& k@ == name@ + stage_suffix(ShaderStage::Fragment) || (k@ == name@
                        + stage_suffix(ShaderStage::Vertex) && self.source_of(
                        name@ + stage_suffix(ShaderStage::Fragment),
                    ) is Some)
                },
            },
    {
        let fragment = match self.source(name, ShaderStage::Fragment) {
            Ok(s) => s,
            Err(e) => return Err(e),
        };
        let vertex = match self.source(name, ShaderStage::Vertex) {
            Ok(s) => s,
            Err(e) => return Err(e),
        };
        Ok(ProgramSources { vertex, fragment })
    }
}

/// A linked program's handle and the uniform names known for it.
#[derive(Debug)]
pub struct ShaderProgram {
    pub id: u32,
    pub uniforms: HashSet<String>,
}

impl ShaderProgram {
    /// Wraps the handle of a linked program; no uniform names are known yet.
    pub fn new(id: u32) -> (r: ShaderProgram)
        ensures
            r.id == id,
            r.uniforms@ == Set::<String>::empty(),
    {
        ShaderProgram { id, uniforms: HashSet::new() }
    }
}

} // verus!
