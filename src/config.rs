//! What a run is asked to do.
use vstd::prelude::*;
use vstd::string::StringExecFns;

verus! {

/// The output directory when none is given.
pub const DEFAULT_OUTPUT_DIR: &'static str = "output/textbook";

/// A run's settings: the volume to fetch, where to write it, and the
/// embedding store to reconcile against, if any.
pub struct Config {
    pub volume_id: String,
    pub output_dir: String,
    pub embeddings_supabase_url: Option<String>,
    pub embeddings_supabase_api_key: Option<String>,
}

impl Config {
    pub fn new(
        volume_id: String,
        output_dir: &str,
        embeddings_supabase_url: Option<String>,
        embeddings_supabase_api_key: Option<String>,
    ) -> (r: Config)
        ensures
            r.volume_id == volume_id,
            r.output_dir@ == output_dir@,
            r.embeddings_supabase_url == embeddings_supabase_url,
            r.embeddings_supabase_api_key == embeddings_supabase_api_key,
    {
        Config {
            volume_id,
            output_dir: String::from_str(output_dir),
            embeddings_supabase_url,
            embeddings_supabase_api_key,
        }
    }

    /// The embedding store's URL and key, when both are given: reconciliation
    /// runs only then.
    pub fn embedding_store(&self) -> (r: Option<(&String, &String)>)
        ensures
            match r {
                Some((u, k)) => self.embeddings_supabase_url == Some(*u) && self.embeddings_supabase_api_key == Some(*k),
                None => self.embeddings_supabase_url is None || self.embeddings_supabase_api_key is None,
            },
    {
        match (&self.embeddings_supabase_url, &self.embeddings_supabase_api_key) {
            (Some(u), Some(k)) => Some((u, k)),
            _ => None,
        }
    }
}

/// The settings that the command-line arguments (after the program name)
/// give: the volume id first, then an optional output directory. Nothing
/// when the volume id is missing.
pub fn parse_config(
    args: &Vec<String>,
    embeddings_supabase_url: Option<String>,
    embeddings_supabase_api_key: Option<String>,
) -> (r: Option<Config>)
    ensures
        match r {
            Some(c) => args@.len() > 0 && c.volume_id@ == args@[0]@
                && c.output_dir@ == (if args@.len() > 1 { args@[1]@ } else { DEFAULT_OUTPUT_DIR@ })
                && c.embeddings_supabase_url == embeddings_supabase_url
                && c.embeddings_supabase_api_key == embeddings_supabase_api_key,
            None => args@.len() == 0,
        },
{
    if args.len() == 0 {
        return None;
    }
    let volume_id = args[0].clone();
    let output_dir: &str = if args.len() > 1 {
        args[1].as_str()
    } else {
        DEFAULT_OUTPUT_DIR
    };
    Some(Config::new(volume_id, output_dir, embeddings_supabase_url, embeddings_supabase_api_key))
}

} // verus!
