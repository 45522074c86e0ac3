# serverscope

A desktop monitor for Ubuntu servers over SSH. The library in `src/` is
verified with Verus; `app/` is the egui front end and the SSH, file and clock
work around it.

- `text`: white space, lines, fields, trimming and decimal numbers, each as a
  spec function with a verified implementation.
- `parse`: readers for `free -m`, `df -h /`, `/proc/loadavg`,
  `/proc/net/dev`, `ss -tunlp` and the CPU line of `top`.
- `format`: byte counts in KB, MB and GB, exactly as `f64` formatting gives them.
- `service`: the fixed probe commands, safe service names and service status.
- `model`, `session`: the configuration, the screens and the monitor's state
  machine, driven by user actions and worker reports.
- `snapshot`: what one refresh learns from the probe answers.
- `laws`: properties that hold on all inputs.
