# gpubox

Auto-detecting GPU container launcher. One command - `gpubox run` - lands in a
shell where `nvidia-smi`, `rocm-smi` or `vulkaninfo` just works, with the home
directory and the current working directory mounted through.

Every decision gpubox takes is a verified function of `src/`: its contract says
exactly what it returns, and [Verus](https://github.com/verus-lang/verus) proves
it. The program in `app/` does the I/O around those decisions and nothing else.

## Layout

| Module | What it decides |
|--------|-----------------|
| `probe` | which GPUs the host has, from sysfs, WMI or the CPU; which one is primary, and which one `--gpu` selects |
| `stack` | the runtime stack, image, packages and variables of a GPU, by the quirks database |
| `device` | how a GPU is handed to a container (Linux): CDI, `--device`, or `--gpus all` with the driver libraries |
| `mounts` | mounts, variables and uid flags that tie a container to the host |
| `launch` | the plan of a launch: all of the above with the overrides applied |
| `backend` | the command line of Docker/Podman, Seatbelt, Windows Sandbox or a Windows container |
| `container` | the commands of persistent containers |
| `cache` | the local image that holds a stack's packages |
| `run` | `gpubox run` as a state machine: what to do next, given how the last step ended |
| `cli` | `gpubox rm`, `gpubox generate`, and quoting for a shell |
| `generate` | the same plan as a Dockerfile, Compose file, Quadlet unit, Seatbelt profile, `.wsb` or `devcontainer.json` |
| `doctor` | what was detected, what was chosen, and how to override it |
| `text`, `table`, `json`, `paths` | strings, ordered string maps, JSON text, joining paths |

Each type has a view (`...View`) that says what it stands for, with strings as
sequences of characters. Contracts relate the views of arguments and results by
spec functions; a `law_...` is a property that spans several of them, such as:

- every host has a plan, if the quirks database is valid (`launch`);
- a dry run changes nothing, and every run ends (`run`);
- the report shows every choice of the plan, each on its line (`doctor`);
- `rm` removes the container that `run` reattaches to (`cli`);
- a persistent container is never created with `--rm` (`container`);
- the order in which a directory is walked does not matter (`probe::linux`).

`app/` holds `main`, the command-line parser, the two TOML databases, what
reads the host, and the loop that performs the steps of a run.
