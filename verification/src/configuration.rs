//! Model-loading and prediction option values.

use vstd::prelude::*;

verus! {

/// CoreML compute-unit selection.
#[derive(Debug, Clone, Copy, PartialEq, Eq, Structural)]
pub enum ComputeUnits {
    /// Force inference onto CPU only.
    CpuOnly,
    /// Allow CPU and GPU execution.
    CpuAndGpu,
    /// Allow CPU and Apple Neural Engine execution.
    CpuAndNeuralEngine,
    /// Let CoreML use the best available compute units.
    All,
}

/// Bridge code of a compute-unit selection.
pub open spec fn compute_units_code(units: ComputeUnits) -> i32 {
    match units {
        ComputeUnits::CpuOnly => 0,
        ComputeUnits::CpuAndGpu => 1,
        ComputeUnits::All => 2,
        ComputeUnits::CpuAndNeuralEngine => 3,
    }
}

impl ComputeUnits {
    /// Bridge code of this selection.
    pub fn as_ffi(self) -> (code: i32)
        ensures
            code == compute_units_code(self),
    {
        match self {
            ComputeUnits::CpuOnly => 0,
            ComputeUnits::CpuAndGpu => 1,
            ComputeUnits::All => 2,
            ComputeUnits::CpuAndNeuralEngine => 3,
        }
    }
}

impl Default for ComputeUnits {
    fn default() -> (units: Self)
        ensures
            units == ComputeUnits::All,
    {
        ComputeUnits::All
    }
}

/// Each selection's bridge code is the raw value of the `MLComputeUnits` case it names:
/// `cpuOnly` 0, `cpuAndGPU` 1, `all` 2 and `cpuAndNeuralEngine` 3.
pub proof fn lemma_compute_units_codes_are_ml_raw_values(units: ComputeUnits)
    ensures
        units == ComputeUnits::CpuOnly <==> compute_units_code(units) == 0,
        units == ComputeUnits::CpuAndGpu <==> compute_units_code(units) == 1,
        units == ComputeUnits::All <==> compute_units_code(units) == 2,
        units == ComputeUnits::CpuAndNeuralEngine <==> compute_units_code(units) == 3,
{
}

/// Distinct selections have distinct bridge codes, all in `0..4`.
pub proof fn lemma_compute_units_codes_distinct(a: ComputeUnits, b: ComputeUnits)
    ensures
        0 <= compute_units_code(a) < 4,
        compute_units_code(a) == compute_units_code(b) ==> a == b,
{
}

/// Options used when loading a model.
#[derive(Debug, Clone, PartialEq, Eq)]
pub struct ModelConfiguration {
    /// Compute units CoreML may use.
    pub compute_units: ComputeUnits,
    /// Whether lower-precision accumulation on GPU is allowed.
    pub allow_low_precision_accumulation_on_gpu: bool,
    /// Display name for the loaded model instance.
    pub display_name: Option<String>,
}

impl Default for ModelConfiguration {
    fn default() -> (c: Self)
        ensures
            c.compute_units == ComputeUnits::All,
            !c.allow_low_precision_accumulation_on_gpu,
            c.display_name is None,
    {
        ModelConfiguration {
            compute_units: ComputeUnits::All,
            allow_low_precision_accumulation_on_gpu: false,
            display_name: None,
        }
    }
}

impl ModelConfiguration {
    /// A configuration with CoreML defaults: all compute units, no low-precision
    /// accumulation, no display name.
    pub fn new() -> (c: Self)
        ensures
            c.compute_units == ComputeUnits::All,
            !c.allow_low_precision_accumulation_on_gpu,
            c.display_name is None,
    {
        ModelConfiguration::default()
    }

    /// Override the compute units CoreML may use.
    pub fn with_compute_units(self, units: ComputeUnits) -> (c: Self)
        ensures
            c.compute_units == units,
            c.allow_low_precision_accumulation_on_gpu
                == self.allow_low_precision_accumulation_on_gpu,
            c.display_name == self.display_name,
    {
        let mut c = self;
        c.compute_units = units;
        c
    }

    /// Allow or forbid lower-precision accumulation on GPU.
    pub fn with_allow_low_precision_accumulation_on_gpu(self, allow: bool) -> (c: Self)
        ensures
            c.compute_units == self.compute_units,
            c.allow_low_precision_accumulation_on_gpu == allow,
            c.display_name == self.display_name,
    {
        let mut c = self;
        c.allow_low_precision_accumulation_on_gpu = allow;
        c
    }

    /// Set the display name for the loaded model instance.
    pub fn with_display_name(self, name: &str) -> (c: Self)
        ensures
            c.compute_units == self.compute_units,
            c.allow_low_precision_accumulation_on_gpu
                == self.allow_low_precision_accumulation_on_gpu,
            c.display_name matches Some(n) && n@ == name@,
    {
        let mut c = self;
        c.display_name = Some(String::from_str(name));
        c
    }

    /// Current compute-unit selection.
    pub fn compute_units(&self) -> (units: ComputeUnits)
        ensures
            units == self.compute_units,
    {
        self.compute_units
    }

    /// Whether low-precision GPU accumulation is enabled.
    pub fn allow_low_precision_accumulation_on_gpu(&self) -> (allow: bool)
        ensures
            allow == self.allow_low_precision_accumulation_on_gpu,
    {
        self.allow_low_precision_accumulation_on_gpu
    }

    /// Display name supplied at load time, if any.
    pub fn display_name(&self) -> (name: Option<&str>)
        ensures
            name is Some <==> self.display_name is Some,
            name matches Some(n) ==> self.display_name matches Some(d) && n@ == d@,
    {
        match &self.display_name {
            Some(name) => Some(name.as_str()),
            None => None,
        }
    }
}

/// Options used for one prediction.
#[derive(Debug, Clone, Copy, PartialEq, Eq, Structural)]
pub struct PredictionOptions {
    /// Whether prediction is forced onto the CPU.
    pub uses_cpu_only: bool,
}

impl Default for PredictionOptions {
    fn default() -> (o: Self)
        ensures
            !o.uses_cpu_only,
    {
        PredictionOptions { uses_cpu_only: false }
    }
}

impl PredictionOptions {
    /// Prediction options with CoreML defaults: not forced onto the CPU.
    pub fn new() -> (o: Self)
        ensures
            !o.uses_cpu_only,
    {
        PredictionOptions::default()
    }

    /// Force prediction onto CPU only, or not.
    pub fn with_uses_cpu_only(self, uses_cpu_only: bool) -> (o: Self)
        ensures
            o.uses_cpu_only == uses_cpu_only,
    {
        PredictionOptions { uses_cpu_only }
    }

    /// Whether prediction is forced onto the CPU.
    pub fn uses_cpu_only(&self) -> (b: bool)
        ensures
            b == self.uses_cpu_only,
    {
        self.uses_cpu_only
    }
}

} // verus!
