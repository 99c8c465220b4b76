use vstd::prelude::*;

verus! {

/// Which kinds of operator a compilation accepts.
#[derive(Debug, Clone, Copy, PartialEq, Eq, Structural)]
#[non_exhaustive]
pub struct Allowed {
    pub float_ops: bool,
    pub indirect_calls: bool,
}

impl Default for Allowed {
    /// Everything is allowed.
    fn default() -> (r: Self)
        ensures
            r.float_ops,
            r.indirect_calls,
    {
        Self { float_ops: true, indirect_calls: true }
    }
}

/// Metering settings: recognised, with no setting yet.
#[derive(Debug, Clone, Copy, PartialEq, Eq, Structural)]
#[non_exhaustive]
pub struct Metering {}

impl Default for Metering {
    fn default() -> (r: Self) {
        Self {}
    }
}

/// The kind of an operator, as far as the configuration is concerned.
#[derive(Debug, Clone, Copy, PartialEq, Eq, Structural)]
pub enum OperatorKind {
    Float,
    IndirectCall,
    Other,
}

/// A compilation refused.
#[derive(Debug, Clone, PartialEq, Eq)]
pub struct CompileError {
    pub message: &'static str,
}

/// Configuration data for the compiler.
#[derive(Debug, Clone, Copy)]
pub struct CompileConfig<'a> {
    pub metering: &'a Metering,
    pub allowed: &'a Allowed,
}

impl Allowed {
    /// Builds a set of permissions.
    pub fn new(float_ops: bool, indirect_calls: bool) -> (r: Self)
        ensures
            r.float_ops == float_ops,
            r.indirect_calls == indirect_calls,
    {
        Self { float_ops, indirect_calls }
    }

    pub open spec fn permits(&self, kind: OperatorKind) -> bool {
        match kind {
            OperatorKind::Float => self.float_ops,
            OperatorKind::IndirectCall => self.indirect_calls,
            OperatorKind::Other => true,
        }
    }

    /// Accepts an operator of kind `kind`, or says why the compilation fails on it.
    pub fn check(&self, kind: OperatorKind) -> (r: Result<(), CompileError>)
        ensures
            r is Ok <==> self.permits(kind),
    {
        match kind {
            OperatorKind::Float => if self.float_ops {
                Ok(())
            } else {
                Err(CompileError { message: "floating point operators are not allowed" })
            },
            OperatorKind::IndirectCall => if self.indirect_calls {
                Ok(())
            } else {
                Err(CompileError { message: "indirect calls are not allowed" })
            },
            OperatorKind::Other => Ok(()),
        }
    }
}

} // verus!
