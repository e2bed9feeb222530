//! Snapshots of model descriptions, compute devices, compute plans and model structure.

use std::collections::BTreeMap;

use vstd::prelude::*;

use crate::feature::FeatureType;
use crate::multi_array::data_type::DataType;

verus! {

/// Snapshot of one `MLFeatureDescription`.
#[derive(Debug, Clone, PartialEq)]
pub struct FeatureDescription {
    /// Feature name.
    pub name: String,
    /// Feature kind.
    pub feature_type: FeatureType,
    /// Whether the feature may be omitted.
    pub optional: bool,
    /// Constraint on a multi-array feature.
    pub multi_array_constraint: Option<MultiArrayConstraint>,
    /// Constraint on an image feature.
    pub image_constraint: Option<ImageConstraint>,
    /// Constraint on a dictionary feature.
    pub dictionary_constraint: Option<DictionaryConstraint>,
    /// Constraint on a sequence feature.
    pub sequence_constraint: Option<SequenceConstraint>,
    /// Constraint on a state feature.
    pub state_constraint: Option<StateConstraint>,
}

/// Shape and element type a multi-array feature must have.
#[derive(Debug, Clone, PartialEq)]
pub struct MultiArrayConstraint {
    /// Expected shape.
    pub shape: Vec<usize>,
    /// Expected element type.
    pub data_type: DataType,
}

/// Size and pixel format an image feature must have.
#[derive(Debug, Clone, PartialEq, Eq)]
pub struct ImageConstraint {
    /// Width in pixels.
    pub pixels_wide: usize,
    /// Height in pixels.
    pub pixels_high: usize,
    /// `OSType` pixel format.
    pub pixel_format_type: u32,
}

/// Key kind a dictionary feature must have.
#[derive(Debug, Clone, PartialEq, Eq)]
pub struct DictionaryConstraint {
    /// Kind of the keys.
    pub key_type: FeatureType,
}

/// Element kind and length range a sequence feature must have.
#[derive(Debug, Clone, PartialEq, Eq)]
pub struct SequenceConstraint {
    /// Kind of the elements.
    pub value_type: FeatureType,
    /// Fewest elements allowed.
    pub count_range_lower: usize,
    /// Most elements allowed.
    pub count_range_upper: usize,
}

/// Buffer shape and element type of a state feature.
#[derive(Debug, Clone, PartialEq)]
pub struct StateConstraint {
    /// Shape of the state buffer.
    pub buffer_shape: Vec<usize>,
    /// Element type of the state buffer.
    pub data_type: DataType,
}

/// Broad CoreML compute-device classes.
#[derive(Debug, Clone, Copy, PartialEq, Eq, Structural)]
pub enum ComputeDeviceKind {
    /// CPU execution.
    Cpu,
    /// GPU execution.
    Gpu,
    /// Apple Neural Engine execution.
    NeuralEngine,
    /// Future or unknown device type surfaced by the framework.
    Unknown,
}

/// Snapshot of one CoreML compute device.
#[derive(Debug, Clone, PartialEq, Eq)]
pub struct ComputeDevice {
    /// Device class.
    pub kind: ComputeDeviceKind,
    /// Framework-provided human-readable description.
    pub description: String,
    /// Core count for Apple Neural Engine devices, when known.
    pub total_core_count: Option<usize>,
}

/// Broad model-type classification surfaced by `MLComputePlan`.
#[derive(Debug, Clone, Copy, PartialEq, Eq, Structural)]
pub enum ComputePlanModelType {
    /// The model structure could not be classified.
    Unknown,
    /// A NeuralNetwork model.
    NeuralNetwork,
    /// An ML Program model.
    Program,
    /// A Pipeline model.
    Pipeline,
}

impl Default for ComputePlanModelType {
    fn default() -> (t: Self)
        ensures
            t == ComputePlanModelType::Unknown,
    {
        ComputePlanModelType::Unknown
    }
}

/// Snapshot of an `MLComputePlan`.
#[derive(Debug, Clone, PartialEq, Eq)]
pub struct ComputePlan {
    /// High-level model type.
    pub model_type: ComputePlanModelType,
    /// Function names published by an ML Program model.
    pub function_names: Vec<String>,
    /// Number of program operations discovered while walking the structure.
    pub operation_count: usize,
    /// Number of neural-network layers.
    pub layer_count: usize,
    /// Number of pipeline sub-models, when applicable.
    pub pipeline_model_count: usize,
}

impl Default for ComputePlan {
    fn default() -> (plan: Self)
        ensures
            plan.model_type == ComputePlanModelType::Unknown,
            plan.function_names@.len() == 0,
            plan.operation_count == 0,
            plan.layer_count == 0,
            plan.pipeline_model_count == 0,
    {
        ComputePlan {
            model_type: ComputePlanModelType::Unknown,
            function_names: Vec::new(),
            operation_count: 0,
            layer_count: 0,
            pipeline_model_count: 0,
        }
    }
}

/// Kind of model an `MLModelStructure` describes.
#[derive(Debug, Clone, Copy, PartialEq, Eq, Structural)]
pub enum ModelStructureKind {
    /// A NeuralNetwork model.
    NeuralNetwork,
    /// An ML Program model.
    Program,
    /// A Pipeline model.
    Pipeline,
    /// A model kind the framework does not describe.
    Unsupported,
}

/// Snapshot of an `MLModelStructure`.
#[derive(Debug, PartialEq)]
pub struct ModelStructure {
    /// Kind of model.
    pub kind: ModelStructureKind,
    /// Layers of a NeuralNetwork model.
    pub neural_network: Option<ModelStructureNeuralNetwork>,
    /// Functions of an ML Program model.
    pub program: Option<ModelStructureProgram>,
    /// Sub-models of a Pipeline model.
    pub pipeline: Option<ModelStructurePipeline>,
}

/// Layers of a NeuralNetwork model.
#[derive(Debug, Clone, PartialEq, Eq)]
pub struct ModelStructureNeuralNetwork {
    /// Layers in order.
    pub layers: Vec<ModelStructureNeuralNetworkLayer>,
}

/// One NeuralNetwork layer.
#[derive(Debug, Clone, PartialEq, Eq)]
pub struct ModelStructureNeuralNetworkLayer {
    /// Layer name.
    pub name: String,
    /// Layer type name.
    pub layer_type: String,
    /// Names of the layer inputs.
    pub input_names: Vec<String>,
    /// Names of the layer outputs.
    pub output_names: Vec<String>,
}

/// Sub-models of a Pipeline model.
#[derive(Debug, PartialEq)]
pub struct ModelStructurePipeline {
    /// Names of the sub-models, in order.
    pub sub_model_names: Vec<String>,
    /// Structure of each sub-model, in order.
    pub sub_models: Vec<ModelStructure>,
}

/// Functions of an ML Program model, by name.
#[derive(Debug, PartialEq, Eq)]
pub struct ModelStructureProgram {
    /// Functions by name.
    pub functions: BTreeMap<String, ModelStructureProgramFunction>,
}

/// One ML Program function.
#[derive(Debug, PartialEq, Eq)]
pub struct ModelStructureProgramFunction {
    /// Typed inputs.
    pub inputs: Vec<ModelStructureProgramNamedValueType>,
    /// Body of the function.
    pub block: ModelStructureProgramBlock,
}

/// One ML Program block.
#[derive(Debug, PartialEq, Eq)]
pub struct ModelStructureProgramBlock {
    /// Typed inputs.
    pub inputs: Vec<ModelStructureProgramNamedValueType>,
    /// Names of the block outputs.
    pub output_names: Vec<String>,
    /// Operations in order.
    pub operations: Vec<ModelStructureProgramOperation>,
}

/// One ML Program operation.
#[derive(Debug, PartialEq, Eq)]
pub struct ModelStructureProgramOperation {
    /// Operator name.
    pub operator_name: String,
    /// Arguments by parameter name.
    pub inputs: BTreeMap<String, ModelStructureProgramArgument>,
    /// Typed outputs.
    pub outputs: Vec<ModelStructureProgramNamedValueType>,
    /// Nested blocks.
    pub blocks: Vec<ModelStructureProgramBlock>,
}

/// A name with its value type.
#[derive(Debug, Clone, PartialEq, Eq)]
pub struct ModelStructureProgramNamedValueType {
    /// Name.
    pub name: String,
    /// Value type.
    pub value_type: ModelStructureProgramValueType,
}

/// An operation argument: the values bound to it.
#[derive(Debug, Clone, PartialEq, Eq)]
pub struct ModelStructureProgramArgument {
    /// Bindings in order.
    pub bindings: Vec<ModelStructureProgramBinding>,
}

/// One binding of an argument: a name or a value.
#[derive(Debug, Clone, PartialEq, Eq)]
pub struct ModelStructureProgramBinding {
    /// Name bound, when the binding is a name.
    pub name: Option<String>,
    /// Value bound, when the binding is a value.
    pub value: Option<ModelStructureProgramValue>,
}

/// A constant value, by its description.
#[derive(Debug, Clone, PartialEq, Eq)]
pub struct ModelStructureProgramValue {
    /// Framework description of the value.
    pub description: String,
}

/// A value type, by its description.
#[derive(Debug, Clone, PartialEq, Eq)]
pub struct ModelStructureProgramValueType {
    /// Framework description of the type.
    pub description: String,
}

/// Compiles `.mlmodel` files into `.mlmodelc` bundles.
#[derive(Debug, Default, Clone, Copy)]
pub struct ModelCompiler;

} // verus!
