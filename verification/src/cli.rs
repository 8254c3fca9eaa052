//! Command-line argument resolution: the raw arguments, their strongly
//! typed resolved form, and the validation that rejects a transform name
//! outside the supported set before the pipeline starts.

use vstd::prelude::*;

use crate::transform::{gsidem_transform_name, Transform, TransformError};

verus! {

/// The raw command-line arguments: input path, transform name, output path,
/// and the flag that permits overwriting the output.
#[derive(Debug)]
pub struct Cli {
    pub input: String,
    pub transform: String,
    pub output: String,
    pub force: bool,
}

/// The resolved, strongly typed arguments.
#[derive(Debug)]
pub struct ResolvedCli {
    pub input: String,
    pub transform: Transform,
    pub output: String,
    pub force: bool,
}

impl Cli {
    /// Resolves the raw arguments, validating the transform name against
    /// the closed set of supported transforms. An unknown name is a
    /// configuration error and nothing starts.
    pub fn parse_resolved(self) -> (r: Result<ResolvedCli, TransformError>)
        ensures
            r is Ok <==> self.transform@ == gsidem_transform_name(),
            r is Ok ==> {
                let res = r.unwrap();
                &&& res.input@ == self.input@
                &&& res.output@ == self.output@
                &&& res.force == self.force
                &&& res.transform is GsiDemPngToTerrainRgbPng
            },
            r is Err ==> r.unwrap_err() == TransformError::UnknownTransformName,
    {
        let transform = Transform::from_str(self.transform.as_str())?;
        Ok(ResolvedCli { input: self.input, transform, output: self.output, force: self.force })
    }
}

} // verus!
