# llmfit

The logic of llmfit, a tool that matches local LLMs to the machine they would
run on, as a Verus-verified Rust library.

- `src/` is the verified library. Every function carries a contract that
  Verus proves:
  - `text`: character-level string operations with their meaning as spec
    functions (trimming, splitting, lines, UTF-8 lengths, parsing numbers);
  - `hardware`: GPU backends, name-based tables (compute capability,
    memory bandwidth, VRAM estimates), the WSL verdict, memory-size units;
  - `gpu_text`, `rocm`, `nvidia`, `probes`: readers for what vendor tools
    and the kernel print (`nvidia-smi`, `rocm-smi`, `vulkaninfo`, `lspci`,
    WMI, sysfs, `npu-smi`, `vm_stat`, `/proc`);
  - `gpu_merge`: the decisions that merge GPU lists from several probes;
  - `models`, `catalog`: quantization tables, generation parsing,
    capability and use-case inference, head counts and tensor parallelism,
    merging of duplicate catalogue rows, catalogue search;
  - `cursor`, `tui`: text shown by the terminal interface (grapheme-safe
    search window, truncation, status hints, dates, badges).
- `app/` is ordinary Rust around it: running commands, reading files and
  sysfs, JSON (serde), and the estimates computed in floating point.
- `tests/` runs the library on concrete inputs.

Quantities the library computes are integers: bandwidth in tenths of GB/s,
VRAM estimates in MiB, quantization factors in hundredths (bytes per
parameter on disk in thousandths), generations in tenths.
