# slurm_job_monitor

Reads what a Slurm job requested and what it uses: processor time, memory and GPUs.

- `src/` is the library. Its contracts are proved with Verus.
  - `text`, `number`: lines, words and decimal numbers.
  - `pattern`, `calendar`: fields found with regular expressions, and points in time.
  - `command`, `listing`, `job`: what `scontrol` says of a job and its processes.
  - `cgroup`, `gpu`: the use of memory, processor time and GPUs.
  - `monitor`: the course of the monitoring and its records.
- `app/` is the program: it runs `scontrol`, reads the files of the control group, asks the NVIDIA
  management library, and writes the records to a CSV file.
- `tests/` are the tests of the library.
