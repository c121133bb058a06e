//! The compute backends that inference can run on.
use vstd::prelude::*;

verus! {

/// A compute backend.
#[derive(Debug, Clone, Copy, PartialEq, Eq, Structural)]
pub enum Device {
    Cpu,
    /// CUDA on the default device.
    Cuda,
    /// CUDA on the device with this id.
    CudaDevice(i32),
    /// TensorRT on the default device.
    TensorRT,
    /// TensorRT on the device with this id.
    TensorRTDevice(i32),
}

impl Device {
    /// Run on the CPU.
    pub fn cpu() -> (r: Vec<Self>)
        ensures
            r@ == seq![Device::Cpu],
    {
        vec![Device::Cpu]
    }

    /// Run with CUDA on the default device.
    pub fn cuda() -> (r: Vec<Self>)
        ensures
            r@ == seq![Device::Cuda],
    {
        vec![Device::Cuda]
    }

    /// Run with CUDA on each of the given devices, in order.
    pub fn cuda_devices(device_ids: Vec<i32>) -> (r: Vec<Self>)
        ensures
            r@ == device_ids@.map_values(|id: i32| Device::CudaDevice(id)),
    {
        let mut out: Vec<Self> = Vec::new();
        let mut i: usize = 0;
        while i < device_ids.len()
            invariant
                i <= device_ids@.len(),
                out@ == device_ids@.subrange(0, i as int).map_values(|id: i32| Device::CudaDevice(id)),
            decreases device_ids.len() - i,
        {
            out.push(Device::CudaDevice(device_ids[i]));
            i = i + 1;
            assert(out@ =~= device_ids@.subrange(0, i as int).map_values(|id: i32| Device::CudaDevice(id)));
        }
        assert(device_ids@.subrange(0, i as int) =~= device_ids@);
        out
    }

    /// Run with TensorRT on the default device.
    pub fn tensorrt() -> (r: Vec<Self>)
        ensures
            r@ == seq![Device::TensorRT],
    {
        vec![Device::TensorRT]
    }

    /// Run with TensorRT on each of the given devices, in order.
    pub fn tensorrt_devices(device_ids: Vec<i32>) -> (r: Vec<Self>)
        ensures
            r@ == device_ids@.map_values(|id: i32| Device::TensorRTDevice(id)),
    {
        let mut out: Vec<Self> = Vec::new();
        let mut i: usize = 0;
        while i < device_ids.len()
            invariant
                i <= device_ids@.len(),
                out@ == device_ids@.subrange(0, i as int).map_values(|id: i32| Device::TensorRTDevice(id)),
            decreases device_ids.len() - i,
        {
            out.push(Device::TensorRTDevice(device_ids[i]));
            i = i + 1;
            assert(out@ =~= device_ids@.subrange(0, i as int).map_values(|id: i32| Device::TensorRTDevice(id)));
        }
        assert(device_ids@.subrange(0, i as int) =~= device_ids@);
        out
    }
}

} // verus!
