# gpu-switcher

Switches a laptop's dedicated GPU between three modes:

- `integrated`: the GPU is freed of its users, taken from its driver and switched off;
- `nvidia`: the GPU is given power and the vendor's driver;
- `vfio`: the GPU is given power and the driver that passes it through to a virtual machine.

`src/` is the library, verified with Verus. It touches nothing itself: each procedure names the next
action that the operating system is to perform, and goes on once the reply has been recorded.

| Module | What it holds |
| --- | --- |
| `system` | actions, replies and the transcript of replies |
| `pci` | bus ids and device ids, finding and binding devices |
| `gpu` | the GPU: its two functions, device nodes and slot |
| `switcher` | the modes and the way from one to another |
| `replay` | why a procedure may be run again after each reply |
| `laws`, `order` | what holds of a switch as a whole, and in which order it does things |
| `text`, `digits`, `report` | text, numbers and the report on a failure |

`app/` performs the actions. Called as `switcher-cli` it is the command, otherwise the daemon.

## Configuration

The daemon reads `/etc/gpu-switcherd.conf`:

```json
{ "device_path": "0000:64:00.0", "hotplug_type": "Normal" }
```

The device path is what `lspci` shows in front of the GPU, with its domain.

## Usage

```
switcher-cli get-mode
switcher-cli set-mode integrated/vfio/nvidia
```

With `--force`, modules are unloaded even against the kernel's advice.
