//! Topology and shape logic of a ResNet-style image classifier: configurations,
//! the module trees built from them (freshly or from a parameter record), and the
//! propagation of tensor shapes through the forward pass.
pub mod conv;
pub mod layers;
pub mod residual;
pub mod resnet;
