use vstd::prelude::*;

verus! {

/// Options of the command that scaffolds a new module package.
pub struct InitOptions {
    pub cwd: String,
    pub pkg_name: String,
}

/// Options of the command that generates the glue code.
pub struct CodegenOptions {
    pub project_root: String,
}

/// Options of the command that builds the native libraries.
pub struct BuildOptions {
    pub project_root: String,
}

/// Options of the command that prints the schemas.
pub struct ShowOptions {
    pub project_root: String,
}

/// Options of the command that checks the toolchain.
pub struct DoctorOptions {
    pub project_root: String,
}

/// Options of the command that removes build outputs.
pub struct CleanOptions {
    pub project_root: String,
}

} // verus!
